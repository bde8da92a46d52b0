//! Image uploads: accepted types, size limit, file names and ownership.

use crate::error::ErrorKind;
use crate::highlight::{replace_all, spec_replace};
use crate::text::{
    chars_equal, chars_of, i64_to_string, spec_decimal, spec_split, spec_trim, spec_views, split_on, str_eq, string_of,
    sub_chars, trim_bounds,
};
use vstd::prelude::*;

verus! {

/// Upload settings.
pub struct MediaConfig {
    /// Largest accepted upload, in bytes.
    pub max_upload_size: u64,
    /// Accepted content types, comma separated.
    pub allowed_image_types: String,
}

/// Upload rules.
pub struct MediaService {
    pub config: MediaConfig,
}

/// Why an upload or a deletion was refused.
#[derive(Clone, Copy, Debug, PartialEq, Eq, Structural)]
pub enum MediaError {
    /// The content type is not accepted.
    UnsupportedType,
    /// The upload is larger than allowed.
    TooLarge,
    /// The file belongs to another user.
    NotOwner,
}

impl MediaError {
    /// The category under which the refusal is reported.
    pub open spec fn spec_kind(self) -> ErrorKind {
        match self {
            MediaError::NotOwner => ErrorKind::Authorization,
            _ => ErrorKind::BadRequest,
        }
    }

    /// The category under which the refusal is reported.
    pub fn kind(&self) -> (k: ErrorKind)
        ensures
            k == self.spec_kind(),
    {
        match self {
            MediaError::NotOwner => ErrorKind::Authorization,
            _ => ErrorKind::BadRequest,
        }
    }
}

/// Whether a content type is in a comma-separated list (entries trimmed).
pub open spec fn spec_type_allowed(list: Seq<char>, content_type: Seq<char>) -> bool {
    exists|i: int|
        0 <= i < spec_split(list, ',').len() && spec_trim(#[trigger] spec_split(list, ',')[i]) == content_type
}

/// The file extension stored for a content type.
pub open spec fn spec_extension(content_type: Seq<char>) -> Seq<char> {
    if content_type == "image/jpeg"@ {
        "jpg"@
    } else if content_type == "image/png"@ {
        "png"@
    } else if content_type == "image/gif"@ {
        "gif"@
    } else if content_type == "image/webp"@ {
        "webp"@
    } else {
        "bin"@
    }
}

impl MediaService {
    /// `validate_image_type`: the content type must be one of the configured ones.
    #[verifier::loop_isolation(false)]
    pub fn validate_image_type(&self, content_type: &str) -> (r: Result<(), MediaError>)
        ensures
            r is Ok <==> spec_type_allowed(self.config.allowed_image_types@, content_type@),
            r is Err ==> r == Err::<(), MediaError>(MediaError::UnsupportedType),
    {
        let list = chars_of(self.config.allowed_image_types.as_str());
        let parts = split_on(&list, ',');
        let want = chars_of(content_type);
        let ghost pv = spec_views(parts@);
        let mut i: usize = 0;
        while i < parts.len()
            invariant
                i <= parts.len(),
                pv == spec_views(parts@),
                forall|k: int| 0 <= k < i ==> spec_trim(#[trigger] pv[k]) != content_type@,
            decreases parts.len() - i,
        {
            let (lo, hi) = trim_bounds(&parts[i]);
            let t = sub_chars(&parts[i], lo, hi);
            if chars_equal(&t, &want) {
                assert(spec_trim(pv[i as int]) == content_type@);
                return Ok(());
            }
            i = i + 1;
        }
        Err(MediaError::UnsupportedType)
    }

    /// An image upload may be at most the configured size.
    pub fn check_size(&self, size: usize) -> (r: Result<(), MediaError>)
        ensures
            r is Ok <==> size <= self.config.max_upload_size,
            r is Err ==> r == Err::<(), MediaError>(MediaError::TooLarge),
    {
        if size as u64 > self.config.max_upload_size {
            Err(MediaError::TooLarge)
        } else {
            Ok(())
        }
    }

    /// The file extension stored for a content type.
    pub fn get_file_extension(content_type: &str) -> (r: &'static str)
        ensures
            r@ == spec_extension(content_type@),
    {
        proof {
            reveal_strlit("image/jpeg");
            reveal_strlit("image/png");
            reveal_strlit("image/gif");
            reveal_strlit("image/webp");
            assert("image/jpeg"@.len() == 10);
            assert("image/png"@.len() == 9);
            assert("image/gif"@.len() == 9);
            assert("image/webp"@.len() == 10);
            assert("image/png"@[6] != "image/gif"@[6]);
            assert("image/jpeg"@[6] != "image/webp"@[6]);
        }
        if str_eq(content_type, "image/jpeg") {
            "jpg"
        } else if str_eq(content_type, "image/png") {
            "png"
        } else if str_eq(content_type, "image/gif") {
            "gif"
        } else if str_eq(content_type, "image/webp") {
            "webp"
        } else {
            "bin"
        }
    }

    /// Only the uploader may delete a file.
    pub fn check_owner(owner_id: &str, user_id: &str) -> (r: Result<(), MediaError>)
        ensures
            r is Ok <==> owner_id@ == user_id@,
            r is Err ==> r == Err::<(), MediaError>(MediaError::NotOwner),
    {
        if str_eq(owner_id, user_id) {
            Ok(())
        } else {
            Err(MediaError::NotOwner)
        }
    }
}

/// A day or month number in two digits, zero-padded (`{:02}`).
pub open spec fn spec_two_digits(n: int) -> Seq<char> {
    if 0 <= n < 10 {
        seq!['0'] + spec_decimal(n)
    } else {
        spec_decimal(n)
    }
}

/// Where an uploaded image is stored: under `uploads/images/`, by year, month and day
/// of the upload, named by its identifier and extension.
pub open spec fn spec_storage_path(year: int, month: int, day: int, file_id: Seq<char>, ext: Seq<char>) -> Seq<char> {
    "uploads/images/"@ + spec_decimal(year) + seq!['/'] + spec_two_digits(month) + seq!['/'] + spec_two_digits(day)
        + seq!['/'] + file_id + seq!['.'] + ext
}

/// The public address of a stored file: the media route followed by the storage path
/// without its `uploads/` parts.
pub open spec fn spec_public_url(storage_path: Seq<char>) -> Seq<char> {
    "/api/blog/media/files/"@ + spec_replace(storage_path, "uploads/"@, Seq::<char>::empty())
}

/// Appends a number in two digits, zero-padded.
fn push_two_digits(s: &mut String, n: u32)
    ensures
        final(s)@ == old(s)@ + spec_two_digits(n as int),
{
    if n < 10 {
        crate::text::push_char(s, '0');
    }
    let d = i64_to_string(n as i64);
    s.append(d.as_str());
}

impl MediaService {
    /// The storage path of an uploaded image.
    pub fn storage_path(year: i32, month: u32, day: u32, file_id: &str, extension: &str) -> (r: String)
        ensures
            r@ == spec_storage_path(year as int, month as int, day as int, file_id@, extension@),
    {
        let mut r = String::from_str("uploads/images/");
        let y = i64_to_string(year as i64);
        r.append(y.as_str());
        crate::text::push_char(&mut r, '/');
        push_two_digits(&mut r, month);
        crate::text::push_char(&mut r, '/');
        push_two_digits(&mut r, day);
        crate::text::push_char(&mut r, '/');
        r.append(file_id);
        crate::text::push_char(&mut r, '.');
        r.append(extension);
        r
    }

    /// The public address of a stored file.
    pub fn public_url(storage_path: &str) -> (r: String)
        ensures
            r@ == spec_public_url(storage_path@),
    {
        let path = chars_of(storage_path);
        let pat = chars_of("uploads/");
        let empty: Vec<char> = Vec::new();
        assert(empty@ =~= Seq::<char>::empty());
        let rest = replace_all(&path, &pat, &empty);
        let mut r = String::from_str("/api/blog/media/files/");
        let t = string_of(&rest);
        r.append(t.as_str());
        r
    }
}

} // verus!
