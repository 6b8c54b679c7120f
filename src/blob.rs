//! Blob store naming and the asset lookup decision. The file system work
//! itself is done by the caller.
use vstd::prelude::*;
use vstd::string::*;

verus! {

/// Directory, under the application-data root, that holds stored images.
pub const IMAGE_DIR: &'static str = "user_images";

/// Extension given to every stored image.
pub const IMAGE_EXTENSION: &'static str = ".png";

pub open spec fn is_lower_hex(c: char) -> bool {
    ('0' <= c && c <= '9') || ('a' <= c && c <= 'f')
}

pub open spec fn is_hyphen_position(i: int) -> bool {
    i == 8 || i == 13 || i == 18 || i == 23
}

/// The hyphenated lower-case text form of a 128-bit identifier.
pub open spec fn is_hyphenated_id(s: Seq<char>) -> bool {
    &&& s.len() == 36
    &&& forall|i: int|
        0 <= i < 36 ==> if is_hyphen_position(i) {
            s[i] == '-'
        } else {
            is_lower_hex(#[trigger] s[i])
        }
}

/// The text form of a random (version 4) identifier: the version digit is
/// `4` and the variant digit one of `8`, `9`, `a`, `b`.
pub open spec fn is_random_id(s: Seq<char>) -> bool {
    &&& is_hyphenated_id(s)
    &&& s[14] == '4'
    &&& (s[19] == '8' || s[19] == '9' || s[19] == 'a' || s[19] == 'b')
}

/// Relies on `uuid::Uuid::new_v4` for a fresh random identifier per call,
/// with the version and variant bits set, and on `Uuid`'s `Display`, which
/// writes the hyphenated lower-case form.
#[verifier::external_body]
fn random_id() -> (r: String)
    ensures
        is_random_id(r@),
{
    uuid::Uuid::new_v4().to_string()
}

/// The file name under which a blob with identifier `id` is stored.
pub fn blob_file_name(id: &str) -> (r: String)
    ensures
        r@ == id@ + IMAGE_EXTENSION@,
{
    String::from_str(id).concat(IMAGE_EXTENSION)
}

/// A file name for a new blob: a fresh random identifier and the image
/// extension.
pub fn new_blob_file_name() -> (r: String)
    ensures
        r@.len() == 40,
        is_random_id(r@.take(36)),
        r@.skip(36) == IMAGE_EXTENSION@,
{
    let id = random_id();
    let r = blob_file_name(id.as_str());
    proof {
        reveal_strlit(".png");
        assert(r@.take(36) =~= id@);
        assert(r@.skip(36) =~= IMAGE_EXTENSION@);
    }
    r
}

/// The content type guessed for a path from its extension.
pub uninterp spec fn mime_of(path: Seq<char>) -> Seq<char>;

/// Relies on `mime_guess::from_path(..).first_or_octet_stream()`: the first
/// type known for the path's extension, `application/octet-stream` when none
/// is; it reads only the path text.
#[verifier::external_body]
fn guess_content_type(path: &str) -> (r: String)
    ensures
        r@ == mime_of(path@),
{
    mime_guess::from_path(path).first_or_octet_stream().as_ref().to_string()
}

/// The answer to a request for the asset at a path.
#[derive(Debug)]
pub enum AssetReply {
    NotFound,
    ReadFailed,
    Found { content_type: String },
}

/// Decides the answer for the asset at `path`, given whether the file
/// exists and whether reading it succeeded.
pub fn asset_reply(path: &str, exists: bool, read_ok: bool) -> (r: AssetReply)
    ensures
        !exists <==> r is NotFound,
        exists && !read_ok <==> r is ReadFailed,
        exists && read_ok <==> r is Found,
        r is Found ==> r->content_type@ == mime_of(path@),
{
    if !exists {
        AssetReply::NotFound
    } else if !read_ok {
        AssetReply::ReadFailed
    } else {
        AssetReply::Found { content_type: guess_content_type(path) }
    }
}

impl AssetReply {
    /// The response status of the answer.
    pub fn status(&self) -> (r: u16)
        ensures
            r == (match self {
                AssetReply::NotFound => 404u16,
                AssetReply::ReadFailed => 500u16,
                AssetReply::Found { .. } => 200u16,
            }),
    {
        match self {
            AssetReply::NotFound => 404,
            AssetReply::ReadFailed => 500,
            AssetReply::Found { .. } => 200,
        }
    }
}

} // verus!
