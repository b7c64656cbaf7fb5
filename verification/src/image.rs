//! Image sources, and how a local image file becomes a data URI.

use crate::text;
use base64::Engine;
use vstd::prelude::*;
use vstd::string::*;
use vstd::utf8::*;

verus! {

/// The character of the standard Base64 alphabet for a number below 64.
pub open spec fn base64_char(value: int) -> char {
    if value < 26 {
        (0x41 + value) as char
    } else if value < 52 {
        (0x61 + value - 26) as char
    } else if value < 62 {
        (0x30 + value - 52) as char
    } else if value == 62 {
        '+'
    } else {
        '/'
    }
}

/// Bytes in Base64 with padding, as RFC 4648 defines it: three bytes become four characters of
/// six bits each.
pub open spec fn base64_text(bytes: Seq<u8>) -> Seq<char>
    decreases bytes.len(),
{
    if bytes.len() == 0 {
        Seq::empty()
    } else if bytes.len() == 1 {
        let a = bytes[0] as int;
        seq![base64_char(a / 4), base64_char((a % 4) * 16), '=', '=']
    } else if bytes.len() == 2 {
        let a = bytes[0] as int;
        let b = bytes[1] as int;
        seq![
            base64_char(a / 4),
            base64_char((a % 4) * 16 + b / 16),
            base64_char((b % 16) * 4),
            '=',
        ]
    } else {
        let a = bytes[0] as int;
        let b = bytes[1] as int;
        let c = bytes[2] as int;
        seq![
            base64_char(a / 4),
            base64_char((a % 4) * 16 + b / 16),
            base64_char((b % 16) * 4 + c / 64),
            base64_char(c % 64),
        ] + base64_text(bytes.skip(3))
    }
}

/// Whether the Base64 form of that many bytes fits in memory.
pub open spec fn base64_fits(len: nat) -> bool {
    (len + 2) / 3 * 4 <= isize::MAX
}

/// `base64::engine::general_purpose::STANDARD.encode` gives the Base64 form of the bytes in the
/// standard alphabet, with padding. It panics where that form cannot be allocated.
#[verifier::external_body]
fn base64_encode(bytes: &Vec<u8>) -> (encoded: String)
    requires
        base64_fits(bytes@.len()),
    ensures
        encoded@ == base64_text(bytes@),
{
    base64::engine::general_purpose::STANDARD.encode(bytes)
}

/// What stands before and behind the last occurrence of a character.
pub open spec fn split_at_last(text: Seq<char>, separator: char) -> Option<(Seq<char>, Seq<char>)>
    decreases text.len(),
{
    if text.len() == 0 {
        None
    } else if text.last() == separator {
        Some((text.drop_last(), Seq::empty()))
    } else {
        match split_at_last(text.drop_last(), separator) {
            Some((before, behind)) => Some((before, behind.push(text.last()))),
            None => None,
        }
    }
}

/// The part of a path behind its last slash.
pub open spec fn last_segment(path: Seq<char>) -> Seq<char> {
    match split_at_last(path, '/') {
        Some((_, name)) => name,
        None => path,
    }
}

/// The part of a file name behind its last dot, unless the dot only begins the name.
pub open spec fn name_extension(name: Seq<char>) -> Option<Seq<char>> {
    match split_at_last(name, '.') {
        Some((stem, extension)) => if stem.len() > 0 {
            Some(extension)
        } else {
            None
        },
        None => None,
    }
}

/// Whether a path is read alike on every platform: only single slashes separate its parts, there
/// is no drive, and it ends in a name.
pub open spec fn portable_path(path: Seq<char>) -> bool {
    let name = last_segment(path);
    &&& !path.contains('\\')
    &&& !path.contains(':')
    &&& !text::has_prefix(path, "//"@)
    &&& name.len() > 0
    &&& name != "."@
    &&& name != ".."@
}

/// Whether a character separates the parts of a path on some platform: a slash, a backslash, or
/// the colon behind a drive.
pub open spec fn is_separator(c: char) -> bool {
    c == '/' || c == '\\' || c == ':'
}

/// Whether a text has a character that separates the parts of a path on some platform.
pub open spec fn has_separator(text: Seq<char>) -> bool {
    exists|i: int| 0 <= i < text.len() && is_separator(#[trigger] text[i])
}

/// The part of a path behind the last character that separates parts on some platform.
pub open spec fn last_part(path: Seq<char>) -> Seq<char>
    decreases path.len(),
{
    if path.len() == 0 || is_separator(path.last()) {
        Seq::empty()
    } else {
        last_part(path.drop_last()).push(path.last())
    }
}

/// Whether a path begins with two characters that separate parts, as the name of a server does.
pub open spec fn begins_doubled(path: Seq<char>) -> bool {
    path.len() >= 2 && is_separator(path[0]) && is_separator(path[1])
}

/// Whether the last part of a path has a dot behind its first character.
pub open spec fn ends_in_extension(path: Seq<char>) -> bool {
    let name = last_part(path);
    !begins_doubled(path) && name != ".."@ && name_extension(name) is Some
}

/// Whether the last part of a path is a name without a dot.
pub open spec fn ends_without_dot(path: Seq<char>) -> bool {
    let name = last_part(path);
    !begins_doubled(path) && name.len() > 0 && split_at_last(name, '.') is None
}

/// Whether a path can have this extension. What separates the parts of other than portable paths
/// depends on the platform. Where the last part, taken as short as any platform takes it, has an
/// extension, that is it on all of them; where it has no dot, an extension can only come from
/// what one platform keeps together and another separates.
pub open spec fn possible_extension(path: Seq<char>, extension: Option<Seq<char>>) -> bool {
    &&& portable_path(path) ==> extension == name_extension(last_segment(path))
    &&& ends_in_extension(path) ==> extension == name_extension(last_part(path))
    &&& ends_without_dot(path) ==> (extension matches Some(extension) ==> has_separator(extension))
    &&& extension matches Some(extension) ==> !extension.contains('.')
}

/// `std::path::Path::extension` gives the part of the file name behind its last dot, or `None`
/// where there is no file name, no dot in it, or only one that begins it. The file name is the
/// last component of the path; the platform decides where that begins, whether behind a slash, a
/// backslash or the colon of a drive. So a dot behind all of these, and not the first character
/// there, is the last of the file name on every platform; and without a dot behind them the last
/// dot of the file name, where it has one, has one of them behind it. Of a path that begins with
/// two of them, that ends in one of them or in `..`, or whose last part begins with its only dot,
/// nothing is claimed unless its parts are separated by single slashes only.
#[verifier::external_body]
fn path_extension(path: &str) -> (extension: Option<&str>)
    ensures
        possible_extension(path@, text::optional_view(extension)),
{
    std::path::Path::new(path).extension()?.to_str()
}

/// The media type of an image by the lower-case extension of its file.
pub open spec fn mime_type(extension: Seq<char>) -> Seq<char> {
    if extension == "jpg"@ || extension == "jpeg"@ {
        "image/jpeg"@
    } else if extension == "png"@ {
        "image/png"@
    } else if extension == "gif"@ {
        "image/gif"@
    } else if extension == "webp"@ {
        "image/webp"@
    } else if extension == "bmp"@ {
        "image/bmp"@
    } else {
        "image/png"@
    }
}

/// The media type of an image whose file has this extension, in any case. Without an extension,
/// or with one that spans parts of a path, it is taken for a PNG image.
pub open spec fn image_mime_type(extension: Option<Seq<char>>) -> Seq<char> {
    match extension {
        Some(extension) => if has_separator(extension) {
            "image/png"@
        } else {
            mime_type(text::in_lower_case(extension))
        },
        None => "image/png"@,
    }
}

/// The data URI of an image.
pub open spec fn data_uri(mime_type: Seq<char>, bytes: Seq<u8>) -> Seq<char> {
    "data:"@ + mime_type + ";base64,"@ + base64_text(bytes)
}

/// The media type by a lower-case extension.
pub fn mime_type_for(extension: &str) -> (mime: &'static str)
    ensures
        mime@ == mime_type(extension@),
{
    if text::same_text(extension, "jpg") || text::same_text(extension, "jpeg") {
        "image/jpeg"
    } else if text::same_text(extension, "png") {
        "image/png"
    } else if text::same_text(extension, "gif") {
        "image/gif"
    } else if text::same_text(extension, "webp") {
        "image/webp"
    } else if text::same_text(extension, "bmp") {
        "image/bmp"
    } else {
        "image/png"
    }
}

/// Whether a text has a character that separates the parts of a path on some platform.
fn spans_parts(text: &str) -> (result: bool)
    ensures
        result == has_separator(text@),
{
    let len: usize = text.unicode_len();
    let mut i: usize = 0;
    while i < len
        invariant
            len == text@.len(),
            i <= len,
            forall|j: int| 0 <= j < i ==> !is_separator(#[trigger] text@[j]),
        decreases len - i,
    {
        let c: char = text.get_char(i);
        if c == '/' || c == '\\' || c == ':' {
            assert(is_separator(text@[i as int]));
            return true;
        }
        i = i + 1;
    }
    false
}

/// The data URI of an image whose file has the given extension.
pub fn image_data_uri(extension: Option<&str>, bytes: &Vec<u8>) -> (uri: String)
    requires
        base64_fits(bytes@.len()),
    ensures
        uri@ == data_uri(image_mime_type(text::optional_view(extension)), bytes@),
{
    let known = match extension {
        Some(extension) => if spans_parts(extension) {
            "png"
        } else {
            extension
        },
        None => "png",
    };
    let lower = known.to_lowercase();
    proof {
        if known@ == "png"@ {
            reveal_strlit("png");
            assert(is_ascii_chars("png"@));
            assert(lower@ =~= "png"@);
            reveal_strlit("jpg");
            reveal_strlit("jpeg");
            assert("png"@[0] != "jpg"@[0]);
            assert("png"@.len() != "jpeg"@.len());
        }
    }
    let mut uri = "data:".to_owned();
    uri.append(mime_type_for(lower.as_str()));
    uri.append(";base64,");
    uri.append(base64_encode(bytes).as_str());
    uri
}

/// What came of reading a local image file.
#[derive(Debug, PartialEq)]
pub enum ImageFile {
    Missing,
    Unreadable,
    Bytes(Vec<u8>),
}

/// Whether an image source is sent as it is: a data URI or a URL.
pub open spec fn sent_as_is(image_source: Seq<char>) -> bool {
    ||| text::has_prefix(image_source, "data:image/"@)
    ||| text::has_prefix(image_source, "http://"@)
    ||| text::has_prefix(image_source, "https://"@)
}

/// Whether an image source is sent as it is, without reading a file.
pub fn is_sent_as_is(image_source: &str) -> (result: bool)
    ensures
        result == sent_as_is(image_source@),
{
    text::starts_with(image_source, "data:image/") || text::starts_with(image_source, "http://")
        || text::starts_with(image_source, "https://")
}

/// The URL under which an image is sent to the model. `file` is what came of reading the file at
/// the source, which counts only where the source is not sent as it is.
pub fn encode_image_source(image_source: &str, file: &ImageFile) -> (url: Result<String, String>)
    requires
        !sent_as_is(image_source@) ==> (file matches ImageFile::Bytes(bytes) ==> base64_fits(
            bytes@.len(),
        )),
    ensures
        url is Ok <==> sent_as_is(image_source@) || file is Bytes,
        sent_as_is(image_source@) ==> url->Ok_0@ == image_source@,
        !sent_as_is(image_source@) ==> match file {
            ImageFile::Missing => url->Err_0@ == "Image file not found: "@ + image_source@,
            ImageFile::Unreadable => url->Err_0@ == "Failed to read image file"@,
            ImageFile::Bytes(bytes) => exists|extension: Option<Seq<char>>| #[trigger]
                possible_extension(image_source@, extension) && url->Ok_0@ == data_uri(
                    image_mime_type(extension),
                    bytes@,
                ),
        },
        !sent_as_is(image_source@) && (ends_in_extension(image_source@) || ends_without_dot(
            image_source@,
        )) ==> (file matches ImageFile::Bytes(bytes) ==> url->Ok_0@ == data_uri(
            image_mime_type(name_extension(last_part(image_source@))),
            bytes@,
        )),
{
    if is_sent_as_is(image_source) {
        return Ok(image_source.to_owned());
    }
    match file {
        ImageFile::Missing => {
            let mut error = "Image file not found: ".to_owned();
            error.append(image_source);
            Err(error)
        },
        ImageFile::Unreadable => Err("Failed to read image file".to_owned()),
        ImageFile::Bytes(bytes) => {
            let extension = path_extension(image_source);
            let url = image_data_uri(extension, bytes);
            assert(possible_extension(image_source@, text::optional_view(extension)));
            Ok(url)
        },
    }
}

/// The Base64 form of bytes has four characters for every three bytes begun.
pub proof fn law_base64_len(bytes: Seq<u8>)
    ensures
        base64_text(bytes).len() == (bytes.len() + 2) / 3 * 4,
    decreases bytes.len(),
{
    if bytes.len() >= 3 {
        law_base64_len(bytes.skip(3));
    }
}

/// Every media type of an image begins with `image/`.
proof fn lemma_image_mime_type(extension: Option<Seq<char>>)
    ensures
        text::has_prefix(image_mime_type(extension), "image/"@),
{
    reveal_strlit("image/");
    reveal_strlit("image/jpeg");
    reveal_strlit("image/png");
    reveal_strlit("image/gif");
    reveal_strlit("image/webp");
    reveal_strlit("image/bmp");
    assert("image/jpeg"@.take(6) =~= "image/"@);
    assert("image/png"@.take(6) =~= "image/"@);
    assert("image/gif"@.take(6) =~= "image/"@);
    assert("image/webp"@.take(6) =~= "image/"@);
    assert("image/bmp"@.take(6) =~= "image/"@);
}

/// The data URI that a file becomes is itself a source that is sent as it is: encoding twice is
/// encoding once.
pub proof fn law_data_uri_is_sent_as_is(extension: Option<Seq<char>>, bytes: Seq<u8>)
    ensures
        sent_as_is(data_uri(image_mime_type(extension), bytes)),
{
    lemma_image_mime_type(extension);
    let mime = image_mime_type(extension);
    let uri = data_uri(mime, bytes);
    reveal_strlit("data:");
    reveal_strlit("image/");
    reveal_strlit("data:image/");
    assert(mime.take(6) =~= "image/"@);
    assert forall|i: int| 0 <= i < 11 implies uri.take(11)[i] == "data:image/"@[i] by {
        if i >= 5 {
            assert(uri[i] == mime[i - 5]);
            assert(mime[i - 5] == mime.take(6)[i - 5]);
        }
    }
    assert(uri.take(11) =~= "data:image/"@);
}

} // verus!
