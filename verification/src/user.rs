//! User profiles: usernames derived from e-mail addresses, and unique usernames.

use crate::error::ErrorKind;
use crate::text::{
    chars_of, i64_to_string, push_char, spec_decimal, spec_split, split_on, string_of, to_lowercase, unicode_lowercase,
};
use vstd::prelude::*;
use vstd::utf8::encode_utf8;

verus! {

/// Whether a character is alphabetic or numeric in Unicode (`char::is_alphanumeric`).
pub uninterp spec fn unicode_alphanumeric(c: char) -> bool;

/// `char::is_alphanumeric`: alphabetic or numeric in Unicode.
#[verifier::external_body]
fn is_alphanumeric(c: char) -> (r: bool)
    ensures
        r == unicode_alphanumeric(c),
{
    c.is_alphanumeric()
}

/// The characters a derived username keeps: alphanumeric ones, `_` and `-`.
pub open spec fn spec_username_char(c: char) -> bool {
    unicode_alphanumeric(c) || c == '_' || c == '-'
}

/// The characters of `s` that a username keeps, in order.
pub open spec fn spec_username_chars(s: Seq<char>) -> Seq<char>
    decreases s.len(),
{
    if s.len() == 0 {
        s
    } else if spec_username_char(s.last()) {
        spec_username_chars(s.drop_last()).push(s.last())
    } else {
        spec_username_chars(s.drop_last())
    }
}

/// The username derived from an e-mail address: the part before the first `@`, reduced
/// to the kept characters and lower-cased; shorter than three bytes, it gets `user_` in
/// front.
pub open spec fn spec_base_username(email: Seq<char>) -> Seq<char> {
    let local = spec_split(email, '@')[0];
    let base = unicode_lowercase(spec_username_chars(local));
    if encode_utf8(base).len() < 3 {
        "user_"@ + base
    } else {
        base
    }
}

/// The `n`-th username candidate: the base, then the base followed by 1, 2, ...
pub open spec fn spec_username_candidate(base: Seq<char>, n: int) -> Seq<char> {
    if n == 0 {
        base
    } else {
        base + spec_decimal(n)
    }
}

/// The `n`-th username candidate of a new profile: the base, then the base followed by
/// `_1`, `_2`, ...
pub open spec fn spec_profile_username_candidate(base: Seq<char>, n: int) -> Seq<char> {
    if n == 0 {
        base
    } else {
        base + seq!['_'] + spec_decimal(n)
    }
}

/// The next move of the search for a free username.
pub enum UsernameStep {
    /// The candidate is free: use it.
    Use(String),
    /// The candidate is taken: try this one next.
    Try(String),
    /// Every candidate was taken.
    Exhausted,
}

/// Why no username could be chosen.
#[derive(Clone, Copy, Debug, PartialEq, Eq, Structural)]
pub enum UserError {
    /// Every candidate username was taken.
    UsernameExhausted,
}

impl UserError {
    /// The category under which the failure is reported.
    pub fn kind(&self) -> (k: ErrorKind)
        ensures
            k == ErrorKind::Internal,
    {
        ErrorKind::Internal
    }
}

/// Profile rules.
pub struct UserService {}

impl UserService {
    /// The username derived from an e-mail address, or the given username, as
    /// new profiles derive it.
    pub fn base_username(email: &str, username: Option<&str>) -> (r: String)
        ensures
            r@ == (match username {
                Some(u) => if encode_utf8(u@).len() < 3 {
                    "user_"@ + u@
                } else {
                    u@
                },
                None => spec_base_username(email@),
            }),
    {
        let base: String = match username {
            Some(u) => String::from_str(u),
            None => {
                let cs = chars_of(email);
                let parts = split_on(&cs, '@');
                proof {
                    crate::text::lemma_split_nonempty(cs@, '@');
                }
                let local = &parts[0];
                let mut kept: Vec<char> = Vec::new();
                let mut i: usize = 0;
                assert(local@.take(0) =~= Seq::<char>::empty());
                while i < local.len()
                    invariant
                        i <= local.len(),
                        kept@ == spec_username_chars(local@.take(i as int)),
                    decreases local.len() - i,
                {
                    assert(local@.take(i + 1).drop_last() =~= local@.take(i as int));
                    let c = local[i];
                    if is_alphanumeric(c) || c == '_' || c == '-' {
                        kept.push(c);
                    }
                    i = i + 1;
                }
                assert(local@.take(local.len() as int) =~= local@);
                let k = string_of(&kept);
                to_lowercase(k.as_str())
            },
        };
        if base.as_str().as_bytes().len() < 3 {
            let mut r = String::from_str("user_");
            r.append(base.as_str());
            r
        } else {
            base
        }
    }

    /// The `n`-th username candidate for a base username.
    pub fn username_candidate(base: &str, n: u32) -> (s: String)
        ensures
            s@ == spec_username_candidate(base@, n as int),
    {
        let mut s = String::from_str(base);
        if n > 0 {
            let d = i64_to_string(n as i64);
            s.append(d.as_str());
        }
        s
    }

    /// The `n`-th username candidate of a new profile for a base username.
    pub fn profile_username_candidate(base: &str, n: u32) -> (s: String)
        ensures
            s@ == spec_profile_username_candidate(base@, n as int),
    {
        let mut s = String::from_str(base);
        if n > 0 {
            push_char(&mut s, '_');
            let d = i64_to_string(n as i64);
            s.append(d.as_str());
        }
        s
    }

    /// One step of the search for a free username of a new profile:
    /// candidate `n` was found free or taken. A free candidate is used; after a taken one
    /// the next is tried, up to candidate 99; when that one is taken too, the search fails.
    pub fn profile_username_search_step(base: &str, n: u32, taken: bool) -> (r: UsernameStep)
        requires
            n <= 99,
        ensures
            !taken ==> (r matches UsernameStep::Use(s) && s@ == spec_profile_username_candidate(base@, n as int)),
            taken && n < 99 ==> (r matches UsernameStep::Try(s) && s@ == spec_profile_username_candidate(
                base@,
                n + 1,
            )),
            taken && n == 99 ==> r is Exhausted,
    {
        if !taken {
            UsernameStep::Use(Self::profile_username_candidate(base, n))
        } else if n < 99 {
            UsernameStep::Try(Self::profile_username_candidate(base, n + 1))
        } else {
            UsernameStep::Exhausted
        }
    }

    /// One step of the search for a free username (the unique-username search):
    /// candidate `n` was found free or taken. A free candidate is used; after a taken one
    /// the next is tried, up to candidate 999; when that one is taken too, the search fails.
    pub fn username_search_step(base: &str, n: u32, taken: bool) -> (r: UsernameStep)
        requires
            n <= 999,
        ensures
            !taken ==> (r matches UsernameStep::Use(s) && s@ == spec_username_candidate(base@, n as int)),
            taken && n < 999 ==> (r matches UsernameStep::Try(s) && s@ == spec_username_candidate(base@, n + 1)),
            taken && n == 999 ==> r is Exhausted,
    {
        if !taken {
            UsernameStep::Use(Self::username_candidate(base, n))
        } else if n < 999 {
            UsernameStep::Try(Self::username_candidate(base, n + 1))
        } else {
            UsernameStep::Exhausted
        }
    }
}

} // verus!
