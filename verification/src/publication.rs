//! Publications: members, their permissions and ownership.

use crate::error::ErrorKind;
use crate::search::spec_cond_if;
use crate::text::{push_str_item, spec_strs, str_eq};
use vstd::prelude::*;

verus! {

/// A member of a publication as the rules read it.
pub struct MemberInfo {
    pub is_owner: bool,
    pub permissions: Vec<String>,
}

/// Why a publication operation was refused.
#[derive(Clone, Copy, Debug, PartialEq, Eq, Structural)]
pub enum PublicationError {
    /// The user is not a member.
    NotMember,
    /// The member lacks the permission.
    MissingPermission,
    /// Only an owner may do this.
    NotOwner,
    /// An owner's role is changed, or an owner removed, by someone else.
    OwnerProtected,
    /// The last owner cannot leave.
    LastOwner,
    /// The user is already a member.
    AlreadyMember,
}

impl PublicationError {
    /// The category under which the refusal is reported.
    pub open spec fn spec_kind(self) -> ErrorKind {
        match self {
            PublicationError::LastOwner => ErrorKind::BadRequest,
            PublicationError::AlreadyMember => ErrorKind::Conflict,
            _ => ErrorKind::Forbidden,
        }
    }

    /// The category under which the refusal is reported.
    pub fn kind(&self) -> (k: ErrorKind)
        ensures
            k == self.spec_kind(),
    {
        match self {
            PublicationError::LastOwner => ErrorKind::BadRequest,
            PublicationError::AlreadyMember => ErrorKind::Conflict,
            _ => ErrorKind::Forbidden,
        }
    }
}

/// Publication rules.
pub struct PublicationService {}

/// Whether a member's permissions include the named one.
pub open spec fn spec_has_permission(permissions: Seq<String>, permission: Seq<char>) -> bool {
    exists|i: int| 0 <= i < permissions.len() && (#[trigger] permissions[i])@ == permission
}

impl PublicationService {
    /// `check_permission`: the user must be a member holding the permission.
    #[verifier::loop_isolation(false)]
    pub fn check_permission(member: Option<&MemberInfo>, permission: &str) -> (r: Result<(), PublicationError>)
        ensures
            member is None ==> r == Err::<(), PublicationError>(PublicationError::NotMember),
            member matches Some(m) ==> (r is Ok <==> spec_has_permission(m.permissions@, permission@)),
            member is Some && r is Err ==> r == Err::<(), PublicationError>(PublicationError::MissingPermission),
    {
        let m = match member {
            None => {
                return Err(PublicationError::NotMember);
            },
            Some(m) => m,
        };
        let mut i: usize = 0;
        while i < m.permissions.len()
            invariant
                i <= m.permissions.len(),
                forall|k: int| 0 <= k < i ==> (#[trigger] m.permissions@[k])@ != permission@,
            decreases m.permissions.len() - i,
        {
            if str_eq(m.permissions[i].as_str(), permission) {
                assert((m.permissions@[i as int])@ == permission@);
                return Ok(());
            }
            i = i + 1;
        }
        Err(PublicationError::MissingPermission)
    }

    /// Only a member who owns the publication may delete it.
    pub fn check_delete(member: Option<&MemberInfo>) -> (r: Result<(), PublicationError>)
        ensures
            member is None ==> r == Err::<(), PublicationError>(PublicationError::NotMember),
            member matches Some(m) ==> (if m.is_owner {
                r is Ok
            } else {
                r == Err::<(), PublicationError>(PublicationError::NotOwner)
            }),
    {
        match member {
            None => Err(PublicationError::NotMember),
            Some(m) => if m.is_owner {
                Ok(())
            } else {
                Err(PublicationError::NotOwner)
            },
        }
    }

    /// An owner's membership can be changed only by that owner.
    pub fn check_update_member(target_is_owner: bool, requester_id: &str, member_user_id: &str) -> (r: Result<
        (),
        PublicationError,
    >)
        ensures
            r is Err <==> target_is_owner && requester_id@ != member_user_id@,
            r is Err ==> r == Err::<(), PublicationError>(PublicationError::OwnerProtected),
    {
        if target_is_owner && !str_eq(requester_id, member_user_id) {
            Err(PublicationError::OwnerProtected)
        } else {
            Ok(())
        }
    }

    /// An owner can be removed only by themselves, and only while
    /// another owner remains (the count includes the leaving owner).
    pub fn check_remove_member(target_is_owner: bool, requester_id: &str, member_user_id: &str, owner_count: i64) -> (r:
        Result<(), PublicationError>)
        ensures
            target_is_owner && requester_id@ != member_user_id@ ==> r == Err::<(), PublicationError>(
                PublicationError::OwnerProtected,
            ),
            target_is_owner && requester_id@ == member_user_id@ && owner_count <= 1 ==> r == Err::<
                (),
                PublicationError,
            >(PublicationError::LastOwner),
            target_is_owner && requester_id@ == member_user_id@ && owner_count > 1 ==> r is Ok,
            !target_is_owner ==> r is Ok,
    {
        if target_is_owner {
            if !str_eq(requester_id, member_user_id) {
                return Err(PublicationError::OwnerProtected);
            }
            if owner_count <= 1 {
                return Err(PublicationError::LastOwner);
            }
        }
        Ok(())
    }

    /// Adding a member: the user must not be a member yet.
    pub fn check_add_member(already_member: bool) -> (r: Result<(), PublicationError>)
        ensures
            r is Ok <==> !already_member,
            r is Err ==> r == Err::<(), PublicationError>(PublicationError::AlreadyMember),
    {
        if already_member {
            Err(PublicationError::AlreadyMember)
        } else {
            Ok(())
        }
    }

    /// Whether a publication is shown: unless it is suspended (deletion suspends it).
    pub fn is_visible(is_suspended: bool) -> (r: bool)
        ensures
            r == !is_suspended,
    {
        !is_suspended
    }
}

/// The conditions of a publication listing: not suspended, then
/// verified only when asked for, then the search when given.
pub open spec fn spec_publication_conditions(verified_only: Option<bool>, search: bool) -> Seq<Seq<char>> {
    seq!["is_suspended = false"@] + spec_cond_if(verified_only == Some(true), "is_verified = true"@) + spec_cond_if(
        search,
        "(name ~ $search OR description ~ $search)"@,
    )
}

/// The order of a publication listing by its sort name: newest, oldest, alphabetical, or
/// the most followed (then the most articles) by default.
pub open spec fn spec_publication_order(sort: Option<Seq<char>>) -> Seq<char> {
    match sort {
        Some(s) => if s == "newest"@ {
            "created_at DESC"@
        } else if s == "oldest"@ {
            "created_at ASC"@
        } else if s == "alphabetical"@ {
            "name ASC"@
        } else {
            "follower_count DESC, article_count DESC"@
        },
        None => "follower_count DESC, article_count DESC"@,
    }
}

impl PublicationService {
    /// The conditions of a publication listing, in order.
    pub fn list_conditions(verified_only: Option<bool>, search: Option<&str>) -> (r: Vec<String>)
        ensures
            spec_strs(r@) == spec_publication_conditions(verified_only, search is Some),
    {
        let mut conds: Vec<String> = Vec::new();
        push_str_item(&mut conds, String::from_str("is_suspended = false"));
        let ghost first = spec_strs(conds@);
        if verified_only == Some(true) {
            push_str_item(&mut conds, String::from_str("is_verified = true"));
        }
        let ghost second = spec_strs(conds@);
        assert(second =~= first + spec_cond_if(verified_only == Some(true), "is_verified = true"@));
        if search.is_some() {
            push_str_item(&mut conds, String::from_str("(name ~ $search OR description ~ $search)"));
        }
        assert(spec_strs(conds@) =~= spec_publication_conditions(verified_only, search is Some));
        conds
    }

    /// The order of a publication listing by its sort name.
    pub fn list_order(sort: Option<&str>) -> (r: &'static str)
        ensures
            r@ == spec_publication_order(
                match sort {
                    Some(s) => Some(s@),
                    None => None,
                },
            ),
    {
        match sort {
            Some(s) => {
                if str_eq(s, "newest") {
                    "created_at DESC"
                } else if str_eq(s, "oldest") {
                    "created_at ASC"
                } else if str_eq(s, "alphabetical") {
                    "name ASC"
                } else {
                    "follower_count DESC, article_count DESC"
                }
            },
            None => "follower_count DESC, article_count DESC",
        }
    }
}

} // verus!
