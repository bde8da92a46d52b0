//! Following other readers.

use crate::error::ErrorKind;
use crate::text::str_eq;
use vstd::prelude::*;

verus! {

/// Why following a user was refused.
#[derive(Clone, Copy, Debug, PartialEq, Eq, Structural)]
pub enum FollowError {
    /// A user cannot follow themselves.
    SelfFollow,
    /// The user to follow does not exist.
    UserNotFound,
    /// The follow already exists.
    AlreadyFollowing,
}

impl FollowError {
    /// The category under which the refusal is reported.
    pub open spec fn spec_kind(self) -> ErrorKind {
        match self {
            FollowError::SelfFollow => ErrorKind::BadRequest,
            FollowError::UserNotFound => ErrorKind::NotFound,
            FollowError::AlreadyFollowing => ErrorKind::Conflict,
        }
    }

    /// The category under which the refusal is reported.
    pub fn kind(&self) -> (k: ErrorKind)
        ensures
            k == self.spec_kind(),
    {
        match self {
            FollowError::SelfFollow => ErrorKind::BadRequest,
            FollowError::UserNotFound => ErrorKind::NotFound,
            FollowError::AlreadyFollowing => ErrorKind::Conflict,
        }
    }
}

/// Follow rules.
pub struct FollowService {}

/// The text of each pair of a store of pairs (follower and followed, or reader and
/// article).
pub open spec fn spec_pair_views(s: Seq<(String, String)>) -> Seq<(Seq<char>, Seq<char>)> {
    Seq::new(s.len(), |i: int| (s[i].0@, s[i].1@))
}

/// Whether a store of pairs holds the pair `(a, b)`.
pub open spec fn spec_has_pair(s: Seq<(Seq<char>, Seq<char>)>, a: Seq<char>, b: Seq<char>) -> bool {
    exists|i: int| 0 <= i < s.len() && #[trigger] s[i] == (a, b)
}

/// Whether no pair occurs twice in a store of pairs.
pub open spec fn spec_distinct_pairs(s: Seq<(Seq<char>, Seq<char>)>) -> bool {
    forall|i: int, j: int| 0 <= i < j < s.len() ==> s[i] != s[j]
}

/// The verdict on `u` following `v`, given the follows stored so far.
pub open spec fn spec_follow_result(s: Seq<(Seq<char>, Seq<char>)>, u: Seq<char>, v: Seq<char>, target_exists: bool) -> Result<
    (),
    FollowError,
> {
    if u == v {
        Err(FollowError::SelfFollow)
    } else if !target_exists {
        Err(FollowError::UserNotFound)
    } else if spec_has_pair(s, u, v) {
        Err(FollowError::AlreadyFollowing)
    } else {
        Ok(())
    }
}

/// The follows stored after `u` asked to follow `v`: the pair is added when the follow
/// is accepted.
pub open spec fn spec_follow_store(s: Seq<(Seq<char>, Seq<char>)>, u: Seq<char>, v: Seq<char>, target_exists: bool) -> Seq<
    (Seq<char>, Seq<char>),
> {
    if spec_follow_result(s, u, v, target_exists) is Ok {
        s.push((u, v))
    } else {
        s
    }
}

/// The number of followers of `v` in a store of (follower, followed) pairs.
pub open spec fn spec_follower_count(s: Seq<(Seq<char>, Seq<char>)>, v: Seq<char>) -> nat {
    s.filter(spec_follows(v)).len()
}

/// Whether a (follower, followed) pair is a follow of `v`.
pub open spec fn spec_follows(v: Seq<char>) -> spec_fn((Seq<char>, Seq<char>)) -> bool {
    |p: (Seq<char>, Seq<char>)| p.1 == v
}

/// Whether a store of pairs holds the pair `(a, b)`.
pub fn has_pair(s: &Vec<(String, String)>, a: &str, b: &str) -> (r: bool)
    ensures
        r == spec_has_pair(spec_pair_views(s@), a@, b@),
{
    let mut i: usize = 0;
    while i < s.len()
        invariant
            i <= s@.len(),
            forall|j: int| 0 <= j < i ==> spec_pair_views(s@)[j] != (a@, b@),
        decreases s.len() - i,
    {
        if str_eq(s[i].0.as_str(), a) && str_eq(s[i].1.as_str(), b) {
            assert(spec_pair_views(s@)[i as int] == (a@, b@));
            return true;
        }
        i = i + 1;
    }
    false
}

/// At most one follow per (follower, followed) pair: following keeps a store of follows
/// free of repeated pairs; an accepted follow gives `v` one follower more; and once `u`
/// follows `v`, `u` asking to follow `v` again is refused as a conflict and stores nothing.
pub proof fn law_one_follow_per_pair(s: Seq<(Seq<char>, Seq<char>)>, u: Seq<char>, v: Seq<char>, target_exists: bool)
    requires
        spec_distinct_pairs(s),
    ensures
        spec_distinct_pairs(spec_follow_store(s, u, v, target_exists)),
        spec_follow_result(s, u, v, target_exists) is Ok ==> spec_has_pair(spec_follow_store(s, u, v, target_exists), u, v),
        spec_follow_result(s, u, v, target_exists) is Ok ==> spec_follow_result(
            spec_follow_store(s, u, v, target_exists),
            u,
            v,
            target_exists,
        ) == Err::<(), FollowError>(FollowError::AlreadyFollowing),
        spec_follow_result(s, u, v, target_exists) is Ok ==> spec_follow_store(
            spec_follow_store(s, u, v, target_exists),
            u,
            v,
            target_exists,
        ) == spec_follow_store(s, u, v, target_exists),
        spec_follow_result(s, u, v, target_exists) is Ok ==> spec_follower_count(
            spec_follow_store(s, u, v, target_exists),
            v,
        ) == spec_follower_count(s, v) + 1,
{
    let t = spec_follow_store(s, u, v, target_exists);
    if spec_follow_result(s, u, v, target_exists) is Ok {
        s.lemma_filter_push((u, v), spec_follows(v));
        assert(t[s.len() as int] == (u, v));
        assert forall|i: int, j: int| 0 <= i < j < t.len() implies t[i] != t[j] by {
            if j == s.len() {
                assert(t[i] == s[i]);
            }
        }
    }
}

impl FollowService {
    /// The checks of following a user, in order: not oneself, an existing user, not yet
    /// followed.
    pub fn check_follow(follower_id: &str, following_id: &str, target_exists: bool, already_following: bool) -> (r:
        Result<(), FollowError>)
        ensures
            follower_id@ == following_id@ ==> r == Err::<(), FollowError>(FollowError::SelfFollow),
            follower_id@ != following_id@ && !target_exists ==> r == Err::<(), FollowError>(FollowError::UserNotFound),
            follower_id@ != following_id@ && target_exists && already_following ==> r == Err::<(), FollowError>(
                FollowError::AlreadyFollowing,
            ),
            follower_id@ != following_id@ && target_exists && !already_following ==> r is Ok,
    {
        if str_eq(follower_id, following_id) {
            return Err(FollowError::SelfFollow);
        }
        if !target_exists {
            return Err(FollowError::UserNotFound);
        }
        if already_following {
            return Err(FollowError::AlreadyFollowing);
        }
        Ok(())
    }

    /// Whether `follower_id` follows `following_id`, in a store of (follower, followed)
    /// pairs.
    pub fn is_following(follows: &Vec<(String, String)>, follower_id: &str, following_id: &str) -> (r: bool)
        ensures
            r == spec_has_pair(spec_pair_views(follows@), follower_id@, following_id@),
    {
        has_pair(follows, follower_id, following_id)
    }

    /// `follower` asks to follow `following`, against a store of follows: the checks
    /// of `check_follow`, with the store telling whether the pair is there; an accepted
    /// follow is stored.
    pub fn follow_user(follows: &mut Vec<(String, String)>, follower_id: &str, following_id: &str, target_exists: bool) -> (r:
        Result<(), FollowError>)
        ensures
            r == spec_follow_result(spec_pair_views(old(follows)@), follower_id@, following_id@, target_exists),
            spec_pair_views(final(follows)@) == spec_follow_store(
                spec_pair_views(old(follows)@),
                follower_id@,
                following_id@,
                target_exists,
            ),
    {
        let already = has_pair(follows, follower_id, following_id);
        match Self::check_follow(follower_id, following_id, target_exists, already) {
            Ok(()) => {
                let ghost before = follows@;
                follows.push((String::from_str(follower_id), String::from_str(following_id)));
                assert(spec_pair_views(follows@) =~= spec_pair_views(before).push((follower_id@, following_id@)));
                Ok(())
            },
            Err(e) => Err(e),
        }
    }
}

} // verus!
