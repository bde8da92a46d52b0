//! Tags: names, deletion and following.

use crate::error::ErrorKind;
use vstd::prelude::*;

verus! {

/// Why a tag operation was refused.
#[derive(Clone, Copy, Debug, PartialEq, Eq, Structural)]
pub enum TagError {
    /// The tag does not exist.
    TagNotFound,
    /// Another tag already has the name.
    NameTaken,
    /// Articles still use the tag.
    InUse,
    /// The user already follows the tag.
    AlreadyFollowing,
}

impl TagError {
    /// The category under which the refusal is reported.
    pub open spec fn spec_kind(self) -> ErrorKind {
        match self {
            TagError::TagNotFound => ErrorKind::NotFound,
            _ => ErrorKind::Conflict,
        }
    }

    /// The category under which the refusal is reported.
    pub fn kind(&self) -> (k: ErrorKind)
        ensures
            k == self.spec_kind(),
    {
        match self {
            TagError::TagNotFound => ErrorKind::NotFound,
            _ => ErrorKind::Conflict,
        }
    }
}

/// Tag rules.
pub struct TagService {}

impl TagService {
    /// A new tag needs an unused name.
    pub fn check_new_tag(name_taken: bool) -> (r: Result<(), TagError>)
        ensures
            r is Ok <==> !name_taken,
            r is Err ==> r == Err::<(), TagError>(TagError::NameTaken),
    {
        if name_taken {
            Err(TagError::NameTaken)
        } else {
            Ok(())
        }
    }

    /// Whether renaming needs a uniqueness check: only when a new name differs from the
    /// current one.
    pub fn rename_needs_check(current_name: &str, new_name: Option<&str>) -> (r: bool)
        ensures
            r == (new_name matches Some(n) && n@ != current_name@),
    {
        match new_name {
            Some(n) => !crate::text::str_eq(n, current_name),
            None => false,
        }
    }

    /// A tag that articles still use stays.
    pub fn check_delete(article_count: i64) -> (r: Result<(), TagError>)
        ensures
            r is Ok <==> article_count <= 0,
            r is Err ==> r == Err::<(), TagError>(TagError::InUse),
    {
        if article_count > 0 {
            Err(TagError::InUse)
        } else {
            Ok(())
        }
    }

    /// Following a tag: the tag must exist and not be followed yet.
    pub fn check_follow(tag_exists: bool, already_following: bool) -> (r: Result<(), TagError>)
        ensures
            !tag_exists ==> r == Err::<(), TagError>(TagError::TagNotFound),
            tag_exists && already_following ==> r == Err::<(), TagError>(TagError::AlreadyFollowing),
            tag_exists && !already_following ==> r is Ok,
    {
        if !tag_exists {
            return Err(TagError::TagNotFound);
        }
        if already_following {
            return Err(TagError::AlreadyFollowing);
        }
        Ok(())
    }
}

} // verus!
