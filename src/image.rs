use vstd::prelude::*;

verus! {

/// The part of the file name of `path` after its last dot, as `Path::extension` finds it.
pub uninterp spec fn extension_of(path: Seq<char>) -> Option<Seq<char>>;

/// Whether `ext` is one of the image extensions a scan takes.
pub open spec fn image_extension(ext: Seq<char>) -> bool {
    ||| ext == seq!['j', 'p', 'g']
    ||| ext == seq!['j', 'p', 'e', 'g']
    ||| ext == seq!['p', 'n', 'g']
    ||| ext == seq!['J', 'P', 'G']
    ||| ext == seq!['J', 'P', 'E', 'G']
    ||| ext == seq!['P', 'N', 'G']
}

/// Relies on std::path::Path::extension: the extension of the path's file
/// name, which depends on the path alone; `None` where there is none.
#[verifier::external_body]
fn path_extension(path: &str) -> (r: Option<String>)
    ensures
        r matches Some(e) ==> extension_of(path@) == Some(e@),
        r is None ==> extension_of(path@) is None,
{
    let ext = std::path::Path::new(path).extension()?;
    Some(ext.to_str()?.to_owned())
}

fn same_text(a: &String, b: &str) -> (r: bool)
    ensures
        r == (a@ == b@),
{
    let b = b.to_owned();
    *a == b
}

/// Whether `ext` is one of the image extensions a scan takes.
pub fn is_image_extension(ext: &str) -> (r: bool)
    ensures
        r == image_extension(ext@),
{
    proof {
        reveal_strlit("jpg");
        reveal_strlit("jpeg");
        reveal_strlit("png");
        reveal_strlit("JPG");
        reveal_strlit("JPEG");
        reveal_strlit("PNG");
        assert("jpg"@ =~= seq!['j', 'p', 'g']);
        assert("jpeg"@ =~= seq!['j', 'p', 'e', 'g']);
        assert("png"@ =~= seq!['p', 'n', 'g']);
        assert("JPG"@ =~= seq!['J', 'P', 'G']);
        assert("JPEG"@ =~= seq!['J', 'P', 'E', 'G']);
        assert("PNG"@ =~= seq!['P', 'N', 'G']);
    }
    let e = ext.to_owned();
    same_text(&e, "jpg") || same_text(&e, "jpeg") || same_text(&e, "png") || same_text(&e, "JPG")
        || same_text(&e, "JPEG") || same_text(&e, "PNG")
}

/// Whether `path` names an image file by its extension.
pub fn is_image(path: &str) -> (r: bool)
    ensures
        r == match extension_of(path@) {
            Some(e) => image_extension(e),
            None => false,
        },
{
    match path_extension(path) {
        Some(e) => is_image_extension(e.as_str()),
        None => false,
    }
}

} // verus!
