//! What the media store says of a blob that it took in.

use vstd::prelude::*;
use crate::blossom::{self, ParsedUrl, UrlView};
use crate::text;

verus! {

/// How many bytes the media type of a blob may take.
pub const MAX_MIME_TYPE_BYTES: usize = 255;

/// How many bytes the address of a blob may take.
pub const MAX_URL_BYTES: usize = 2_048;

/// What the media store says of a blob.
#[derive(Debug)]
pub struct BlobDescriptor {
    pub sha256: String,
    pub size: i64,
    pub mime_type: String,
    pub url: String,
    pub uploaded: i64,
}

/// What the media store says of a blob, in characters.
pub struct DescriptorView {
    pub sha256: Seq<char>,
    pub size: i64,
    pub mime_type: Seq<char>,
    pub url: Seq<char>,
    pub uploaded: i64,
}

impl View for BlobDescriptor {
    type V = DescriptorView;

    open spec fn view(&self) -> DescriptorView {
        DescriptorView {
            sha256: self.sha256@,
            size: self.size,
            mime_type: self.mime_type@,
            url: self.url@,
            uploaded: self.uploaded,
        }
    }
}

/// An address that can be fetched from: one of HTTP, with a host.
pub open spec fn web_address(url: Option<UrlView>) -> bool {
    url is Some && (url->0.scheme == "http"@ || url->0.scheme == "https"@) && url->0.host is Some
}

/// Whether what is said of a blob can be kept, given the address that its `url` is: a hash, a size
/// and a time that are not negative, a media type with a slash, and an address to fetch it from,
/// each of a length that is allowed.
pub open spec fn keepable(descriptor: DescriptorView, url: Option<UrlView>) -> bool {
    &&& blossom::is_hash(descriptor.sha256)
    &&& descriptor.size >= 0
    &&& descriptor.uploaded >= 0
    &&& text::trim(descriptor.mime_type).len() > 0
    &&& text::byte_length(descriptor.mime_type) <= MAX_MIME_TYPE_BYTES
    &&& descriptor.mime_type.contains('/')
    &&& text::byte_length(descriptor.url) <= MAX_URL_BYTES
    &&& web_address(url)
}

/// Whether what is said of a blob can be kept.
pub open spec fn valid_descriptor(descriptor: DescriptorView) -> bool {
    keepable(descriptor, blossom::url_in_text(descriptor.url))
}

/// Whether what is said of a blob can be kept, given the address that its `url` is.
pub fn check_blob_descriptor(descriptor: &BlobDescriptor, url: Option<&ParsedUrl>) -> (r: bool)
    ensures
        r == keepable(
            descriptor@,
            match url {
                Some(url) => Some(url@),
                None => None,
            },
        ),
{
    blossom::valid_sha256(descriptor.sha256.as_str()) && descriptor.size >= 0
        && descriptor.uploaded >= 0 && !text::trimmed(descriptor.mime_type.as_str()).is_empty()
        && text::fits_in(descriptor.mime_type.as_str(), MAX_MIME_TYPE_BYTES)
        && text::contains_char(descriptor.mime_type.as_str(), '/') && text::fits_in(
        descriptor.url.as_str(),
        MAX_URL_BYTES,
    ) && match url {
        Some(url) => (text::same(url.scheme.as_str(), "http") || text::same(
            url.scheme.as_str(),
            "https",
        )) && url.host.is_some(),
        None => false,
    }
}

/// Whether what is said of a blob can be kept.
pub fn valid_blob_descriptor(descriptor: &BlobDescriptor) -> (r: bool)
    ensures
        r == valid_descriptor(descriptor@),
{
    let url = blossom::parse_url(descriptor.url.as_str());
    let parsed = match &url {
        Some(url) => Some(url),
        None => None,
    };
    check_blob_descriptor(descriptor, parsed)
}

} // verus!
