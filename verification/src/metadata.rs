//! What the downloader learns of a resource from the headers of its response
//! to a HEAD request.
use vstd::prelude::*;
use vstd::string::*;
use crate::address::{ParsedUrl, url_file_name, url_file_name_spec};
use crate::decimal::{
    IntErrorKind, ascii_bytes, decimal_digits, lemma_decimal_digits_are_digits,
    lemma_parse_decimal_roundtrip, parse_u64, parse_u64_spec,
};

verus! {

/// Whether a header byte is visible ASCII (a tab, or a character from space
/// to `~`), the bytes that `HeaderValue::to_str` accepts.
pub open spec fn is_visible_ascii(b: u8) -> bool {
    (32 <= b && b < 127) || b == 9
}

/// Whether every byte of a header value is visible ASCII, that is whether
/// `HeaderValue::to_str` succeeds on it.
pub open spec fn header_is_text(value: Seq<u8>) -> bool {
    forall|i: int| 0 <= i < value.len() ==> is_visible_ascii(#[trigger] value[i])
}

/// Checks that a header value can be read as text, as `HeaderValue::to_str`
/// does.
pub fn header_value_is_text(value: &[u8]) -> (ok: bool)
    ensures
        ok == header_is_text(value@),
{
    let mut i: usize = 0;
    while i < value.len()
        invariant
            i <= value@.len(),
            forall|k: int| 0 <= k < i ==> is_visible_ascii(#[trigger] value@[k]),
        decreases value@.len() - i,
    {
        let b = value[i];
        if !((b >= 32 && b < 127) || b == 9) {
            return false;
        }
        i = i + 1;
    }
    true
}

/// The error reported for a header value that is not visible ASCII.
pub open spec fn non_visible_message() -> Seq<char> {
    "Non visible characters found: failed to convert header to a str"@
}

/// The `Display` text of a `ParseIntError` of the given kind.
pub open spec fn int_error_text(kind: IntErrorKind) -> Seq<char> {
    match kind {
        IntErrorKind::Empty => "cannot parse integer from empty string"@,
        IntErrorKind::InvalidDigit => "invalid digit found in string"@,
        IntErrorKind::PosOverflow => "number too large to fit in target type"@,
    }
}

/// The error reported for a `Content-Length` that is not a `u64`.
pub open spec fn invalid_length_message(kind: IntErrorKind) -> Seq<char> {
    "Invalid 'Content-Length' header: "@ + int_error_text(kind)
}

/// The size that a `Content-Length` header gives: none without the header,
/// else its value read as a `u64`.
pub open spec fn content_length_spec(value: Option<Seq<u8>>) -> Result<Option<nat>, Seq<char>> {
    match value {
        None => Ok(None),
        Some(bytes) => if !header_is_text(bytes) {
            Err(non_visible_message())
        } else {
            match parse_u64_spec(bytes) {
                Ok(size) => Ok(Some(size)),
                Err(kind) => Err(invalid_length_message(kind)),
            }
        },
    }
}

/// The bytes of the token `bytes`.
pub open spec fn bytes_token() -> Seq<u8> {
    seq![98u8, 121u8, 116u8, 101u8, 115u8]
}

/// Whether an `Accept-Ranges` header admits byte ranges: it must be present
/// and be exactly `bytes`.
pub open spec fn accept_ranges_spec(value: Option<Seq<u8>>) -> Result<bool, Seq<char>> {
    match value {
        None => Ok(false),
        Some(bytes) => if !header_is_text(bytes) {
            Err(non_visible_message())
        } else {
            Ok(bytes == bytes_token())
        },
    }
}

/// The view of an optional header value.
pub open spec fn header_view(value: Option<&[u8]>) -> Option<Seq<u8>> {
    match value {
        Some(bytes) => Some(bytes@),
        None => None,
    }
}

/// The view of an optional size.
pub open spec fn size_view(size: Option<u64>) -> Option<nat> {
    match size {
        Some(s) => Some(s as nat),
        None => None,
    }
}

/// The error text of a `ParseIntError` of the given kind.
fn int_error_message(kind: IntErrorKind) -> (text: String)
    ensures
        text@ == invalid_length_message(kind),
{
    let mut text = String::from_str("Invalid 'Content-Length' header: ");
    match kind {
        IntErrorKind::Empty => text.append("cannot parse integer from empty string"),
        IntErrorKind::InvalidDigit => text.append("invalid digit found in string"),
        IntErrorKind::PosOverflow => text.append("number too large to fit in target type"),
    }
    text
}

/// Reads the size of a resource from its `Content-Length` header.
fn read_content_length(value: Option<&[u8]>) -> (res: Result<Option<u64>, String>)
    ensures
        match res {
            Ok(size) => content_length_spec(header_view(value)) == Ok::<Option<nat>, Seq<char>>(
                size_view(size),
            ),
            Err(message) => content_length_spec(header_view(value)) == Err::<Option<nat>, Seq<char>>(
                message@,
            ),
        },
{
    match value {
        None => Ok(None),
        Some(bytes) => {
            if !header_value_is_text(bytes) {
                return Err(String::from_str("Non visible characters found: failed to convert header to a str"));
            }
            match parse_u64(bytes) {
                Ok(size) => Ok(Some(size)),
                Err(kind) => Err(int_error_message(kind)),
            }
        },
    }
}

/// Reads whether a resource accepts byte ranges from its `Accept-Ranges`
/// header.
fn read_accept_ranges(value: Option<&[u8]>) -> (res: Result<bool, String>)
    ensures
        match res {
            Ok(accept) => accept_ranges_spec(header_view(value)) == Ok::<bool, Seq<char>>(accept),
            Err(message) => accept_ranges_spec(header_view(value)) == Err::<bool, Seq<char>>(
                message@,
            ),
        },
{
    match value {
        None => Ok(false),
        Some(bytes) => {
            if !header_value_is_text(bytes) {
                return Err(String::from_str("Non visible characters found: failed to convert header to a str"));
            }
            let accept = bytes.len() == 5 && bytes[0] == 98 && bytes[1] == 121 && bytes[2] == 116
                && bytes[3] == 101 && bytes[4] == 115;
            assert(accept == (bytes@ == bytes_token())) by {
                if bytes@.len() == 5 {
                    assert(accept ==> bytes@ =~= bytes_token());
                }
            }
            Ok(accept)
        },
    }
}

/// What the headers of a resource say about how it can be downloaded.
#[derive(Debug, Clone, Copy, PartialEq, Eq)]
pub struct ResourceMetadata {
    /// The size in bytes, when the response gives a `Content-Length`.
    pub size: Option<u64>,
    /// Whether the server serves byte ranges of the resource.
    pub accept_ranges: bool,
}

impl ResourceMetadata {
    /// Reads the metadata of a resource from the values of its
    /// `Content-Length` and `Accept-Ranges` headers (`None` for an absent
    /// header). The size is read first, so its error comes first.
    pub fn new(content_length: Option<&[u8]>, accept_ranges: Option<&[u8]>) -> (res: Result<
        ResourceMetadata,
        String,
    >)
        ensures
            match content_length_spec(header_view(content_length)) {
                Err(message) => res matches Err(m) && m@ == message,
                Ok(size) => match accept_ranges_spec(header_view(accept_ranges)) {
                    Err(message) => res matches Err(m) && m@ == message,
                    Ok(accept) => res matches Ok(meta) && size_view(meta.size) == size
                        && meta.accept_ranges == accept,
                },
            },
    {
        let size = match read_content_length(content_length) {
            Ok(size) => size,
            Err(message) => return Err(message),
        };
        let accept = match read_accept_ranges(accept_ranges) {
            Ok(accept) => accept,
            Err(message) => return Err(message),
        };
        Ok(ResourceMetadata { size, accept_ranges: accept })
    }
}

/// The name under which a resource is saved when its URL names no file.
pub open spec fn default_file_name() -> Seq<char> {
    "TODO.bin"@
}

/// What the headers and the final URL of a response say about the file to
/// download.
#[derive(Debug, Clone, PartialEq, Eq)]
pub struct FileMetadata {
    /// The size in bytes, when the response gives a `Content-Length`.
    pub size: Option<u64>,
    /// Whether the server serves byte ranges of the resource.
    pub accept_ranges: bool,
    /// The name of the file to write.
    pub filename: String,
}

impl FileMetadata {
    /// Reads the metadata of a file from the values of the `Content-Length`
    /// and `Accept-Ranges` headers of the response and from the URL that the
    /// response came from: the file is named after the last segment of that
    /// URL's path, or `TODO.bin` when there is none.
    pub fn new(
        content_length: Option<&[u8]>,
        accept_ranges: Option<&[u8]>,
        response_url: &ParsedUrl,
    ) -> (res: Result<FileMetadata, String>)
        ensures
            match content_length_spec(header_view(content_length)) {
                Err(message) => res matches Err(m) && m@ == message,
                Ok(size) => match accept_ranges_spec(header_view(accept_ranges)) {
                    Err(message) => res matches Err(m) && m@ == message,
                    Ok(accept) => res matches Ok(meta) && size_view(meta.size) == size
                        && meta.accept_ranges == accept && meta.filename@ == match url_file_name_spec(
                        response_url.path_text(),
                    ) {
                        Some(name) => name,
                        None => default_file_name(),
                    },
                },
            },
    {
        let size = match read_content_length(content_length) {
            Ok(size) => size,
            Err(message) => return Err(message),
        };
        let accept = match read_accept_ranges(accept_ranges) {
            Ok(accept) => accept,
            Err(message) => return Err(message),
        };
        let filename = match url_file_name(response_url) {
            Some(name) => name,
            None => String::from_str("TODO.bin"),
        };
        Ok(FileMetadata { size, accept_ranges: accept, filename })
    }

    /// The size to split the download over, when the resource can be
    /// downloaded in ranges: it must have a known size and accept byte
    /// ranges. `None` means a plain download.
    pub fn split_size(&self) -> (size: Option<u64>)
        ensures
            size == (if self.accept_ranges { self.size } else { None }),
    {
        if self.accept_ranges {
            self.size
        } else {
            None
        }
    }
}

/// A header value reads as text exactly when each of its bytes is a tab or
/// a visible ASCII character, from the space to `~`.
pub proof fn lemma_header_text_is_visible_ascii(value: Seq<u8>)
    ensures
        header_is_text(value) <==> forall|i: int|
            0 <= i < value.len() ==> (#[trigger] value[i] == 9 || (32 <= value[i] && value[i] <= 126)),
{
}

/// The decimal text of any size, given as the `Content-Length`, is read
/// back as that size.
pub proof fn lemma_content_length_of_decimal(n: u64)
    ensures
        content_length_spec(Some(ascii_bytes(decimal_digits(n as nat)))) == Ok::<Option<nat>, Seq<char>>(
            Some(n as nat),
        ),
{
    lemma_decimal_digits_are_digits(n as nat);
    lemma_parse_decimal_roundtrip(n);
    let bytes = ascii_bytes(decimal_digits(n as nat));
    assert forall|i: int| 0 <= i < bytes.len() implies is_visible_ascii(#[trigger] bytes[i]) by {
        assert(bytes[i] == decimal_digits(n as nat)[i] as u8);
        assert('0' <= decimal_digits(n as nat)[i] <= '9');
    }
}

/// A resource is read as accepting ranges exactly when its `Accept-Ranges`
/// header is the text `bytes`: no header, or any other text, means it does
/// not.
pub proof fn lemma_accept_ranges_only_for_bytes(value: Option<Seq<u8>>)
    ensures
        accept_ranges_spec(value) == Ok::<bool, Seq<char>>(true) <==> value == Some(
            seq![98u8, 121u8, 116u8, 101u8, 115u8],
        ),
{
    if value == Some(seq![98u8, 121u8, 116u8, 101u8, 115u8]) {
        let b = seq![98u8, 121u8, 116u8, 101u8, 115u8];
        assert(header_is_text(b));
        assert(b =~= bytes_token());
    }
    if accept_ranges_spec(value) == Ok::<bool, Seq<char>>(true) {
        assert(value->0 =~= seq![98u8, 121u8, 116u8, 101u8, 115u8]);
    }
}

} // verus!
