//! Media caching rules of the daemon: which cache an image goes to, how long
//! it is kept, the keys it is stored under, the local URLs that proxy remote
//! images, and how screenshots are scaled down.

use vstd::prelude::*;
use vstd::utf8::encode_utf8;
use percent_encoding::{utf8_percent_encode, NON_ALPHANUMERIC};
use crate::text::{contains_seq, has_suffix, str_ends_with, chars_of, push_str, string_of, find};

verus! {

/// How long downloaded screenshots are kept.
pub const MEDIA_TTL_SECS: u64 = 604800;

/// How long downloaded icons are kept.
pub const ICON_TTL_SECS: u64 = 21600;

/// What an image is used as.
#[derive(Clone, Copy, Debug, PartialEq, Eq, Structural)]
pub enum MediaKind {
    Icon,
    Screenshot,
}

/// The name of the on-disk cache an image of this kind goes to.
pub fn cache_name(kind: MediaKind) -> (r: &'static str)
    ensures
        r@ == match kind {
            MediaKind::Icon => "media-icons"@,
            MediaKind::Screenshot => "media"@,
        },
{
    match kind {
        MediaKind::Icon => "media-icons",
        MediaKind::Screenshot => "media",
    }
}

/// How long an image of this kind is kept.
pub fn cache_ttl_secs(kind: MediaKind) -> (r: u64)
    ensures
        r == match kind {
            MediaKind::Icon => ICON_TTL_SECS,
            MediaKind::Screenshot => MEDIA_TTL_SECS,
        },
{
    match kind {
        MediaKind::Icon => ICON_TTL_SECS,
        MediaKind::Screenshot => MEDIA_TTL_SECS,
    }
}

pub open spec fn spec_is_svg(content_type: Seq<char>, url: Seq<char>) -> bool {
    contains_seq(content_type, "svg"@) || has_suffix(url, ".svg"@) || has_suffix(url, ".svgz"@)
}

/// Whether a downloaded image is an SVG, by its content type or its URL.
pub fn is_svg(content_type: &str, url: &str) -> (r: bool)
    ensures
        r == spec_is_svg(content_type@, url@),
{
    let ct = chars_of(content_type);
    let svg = chars_of("svg");
    find(&ct, &svg).is_some() || str_ends_with(url, ".svg") || str_ends_with(url, ".svgz")
}

/// The decimal digits of `n`.
pub open spec fn decimal(n: nat) -> Seq<char>
    decreases n,
{
    if n < 10 {
        seq![((48 + n) as u8) as char]
    } else {
        decimal(n / 10) + seq![((48 + n % 10) as u8) as char]
    }
}

/// The decimal digits of `n`, as `Display` writes them.
pub fn decimal_exec(n: u32) -> (r: Vec<char>)
    ensures
        r@ == decimal(n as nat),
    decreases n,
{
    let d: u8 = (n % 10) as u8;
    let c: char = (48u8 + d) as char;
    if n < 10 {
        let mut r: Vec<char> = Vec::new();
        r.push(c);
        r
    } else {
        let mut r = decimal_exec(n / 10);
        r.push(c);
        r
    }
}

/// The cache key of an image download before any processing.
pub fn raw_key(url: &str) -> (r: String)
    ensures
        r@ == "raw:"@ + url@,
{
    let mut v: Vec<char> = Vec::new();
    push_str(&mut v, "raw:");
    push_str(&mut v, url);
    string_of(&v)
}

pub open spec fn spec_media_key(kind: MediaKind, url: Seq<char>, width: Option<u32>) -> Seq<char> {
    match (kind, width) {
        (MediaKind::Icon, _) => "icon:"@ + url,
        (MediaKind::Screenshot, Some(w)) => "shot:"@ + url + "#w="@ + decimal(w as nat),
        (MediaKind::Screenshot, None) => "shot:"@ + url,
    }
}

/// The cache key of a processed image: icons are padded regardless of the
/// width asked for; screenshots are keyed by the width they are scaled to.
pub fn media_key(kind: MediaKind, url: &str, width: Option<u32>) -> (r: String)
    ensures
        r@ == spec_media_key(kind, url@, width),
{
    let mut v: Vec<char> = Vec::new();
    match (kind, width) {
        (MediaKind::Icon, _) => {
            push_str(&mut v, "icon:");
            push_str(&mut v, url);
        },
        (MediaKind::Screenshot, Some(w)) => {
            push_str(&mut v, "shot:");
            push_str(&mut v, url);
            push_str(&mut v, "#w=");
            let digits = decimal_exec(w);
            let mut i: usize = 0;
            let ghost start = v@;
            while i < digits.len()
                invariant
                    0 <= i <= digits@.len(),
                    v@ == start + digits@.subrange(0, i as int),
                decreases digits@.len() - i,
            {
                v.push(digits[i]);
                i += 1;
                assert(v@ =~= start + digits@.subrange(0, i as int));
            }
            assert(digits@.subrange(0, i as int) =~= digits@);
        },
        (MediaKind::Screenshot, None) => {
            push_str(&mut v, "shot:");
            push_str(&mut v, url);
        },
    }
    let r = string_of(&v);
    proof {
        reveal_strlit("icon:");
        reveal_strlit("shot:");
        reveal_strlit("#w=");
    }
    assert(r@ =~= spec_media_key(kind, url@, width));
    r
}

/// The local URL that serves a package's icon.
pub fn icon_proxy_url(base: &str, package_id: &str) -> (r: String)
    ensures
        r@ == base@ + "/api/v1/apps/"@ + package_id@ + "/icon"@,
{
    let mut v: Vec<char> = Vec::new();
    push_str(&mut v, base);
    push_str(&mut v, "/api/v1/apps/");
    push_str(&mut v, package_id);
    push_str(&mut v, "/icon");
    let r = string_of(&v);
    assert(r@ =~= base@ + "/api/v1/apps/"@ + package_id@ + "/icon"@);
    r
}

/// The local URL that serves a forge package's icon.
pub fn forge_icon_proxy_url(base: &str, package_id: &str) -> (r: String)
    ensures
        r@ == base@ + "/forge/icon/"@ + package_id@,
{
    let mut v: Vec<char> = Vec::new();
    push_str(&mut v, base);
    push_str(&mut v, "/forge/icon/");
    push_str(&mut v, package_id);
    let r = string_of(&v);
    assert(r@ =~= base@ + "/forge/icon/"@ + package_id@);
    r
}

pub open spec fn is_alnum_byte(b: u8) -> bool {
    (48 <= b <= 57) || (65 <= b <= 90) || (97 <= b <= 122)
}

pub open spec fn hex_upper(d: int) -> char {
    if d < 10 {
        ((48 + d) as u8) as char
    } else {
        ((55 + d) as u8) as char
    }
}

/// One byte as `NON_ALPHANUMERIC` percent-encoding writes it.
pub open spec fn encode_byte(b: u8) -> Seq<char> {
    if is_alnum_byte(b) {
        seq![b as char]
    } else {
        seq!['%', hex_upper(b as int / 16), hex_upper(b as int % 16)]
    }
}

/// Bytes percent-encoded, every byte but an ASCII letter or digit as `%XX`.
pub open spec fn percent_encoded(bytes: Seq<u8>) -> Seq<char>
    decreases bytes.len(),
{
    if bytes.len() == 0 {
        Seq::empty()
    } else {
        percent_encoded(bytes.drop_last()) + encode_byte(bytes.last())
    }
}

/// Percent-encodes the UTF-8 bytes of `s` with `utf8_percent_encode` and the
/// `NON_ALPHANUMERIC` set: every byte but an ASCII letter or digit becomes
/// `%` and two upper-case hex digits.
#[verifier::external_body]
fn encode_component(s: &str) -> (r: String)
    ensures
        r@ == percent_encoded(encode_utf8(s@)),
{
    utf8_percent_encode(s, NON_ALPHANUMERIC).to_string()
}

/// The local URL that serves a remote image through the daemon.
pub fn image_proxy_url(base: &str, remote_url: &str) -> (r: String)
    ensures
        r@ == base@ + "/api/v1/image?url="@ + percent_encoded(encode_utf8(remote_url@)),
{
    let encoded = encode_component(remote_url);
    let mut v: Vec<char> = Vec::new();
    push_str(&mut v, base);
    push_str(&mut v, "/api/v1/image?url=");
    push_str(&mut v, encoded.as_str());
    let r = string_of(&v);
    assert(r@ =~= base@ + "/api/v1/image?url="@ + percent_encoded(encode_utf8(remote_url@)));
    r
}

/// The height a screenshot gets when scaled to `target_w`, keeping its
/// aspect ratio (at least 1).
pub open spec fn scaled_height(width: u32, height: u32, target_w: u32) -> int {
    let h = (height as int * target_w as int) / width as int;
    if h < 1 {
        1
    } else {
        h
    }
}

/// The size to scale a `width` × `height` screenshot to, or `None` when it
/// is no wider than `target_w` and is kept as it is.
pub fn resize_plan(width: u32, height: u32, target_w: u32) -> (r: Option<(u32, u32)>)
    ensures
        match r {
            Some((w, h)) => width > target_w && w == target_w && h == scaled_height(
                width,
                height,
                target_w,
            ),
            None => width <= target_w,
        },
{
    if width <= target_w {
        return None;
    }
    assert(height as int * target_w as int <= 0xffff_ffff * 0xffff_ffff) by (nonlinear_arith)
        requires
            height <= 0xffff_ffff,
            target_w <= 0xffff_ffff,
    ;
    let prod: u64 = height as u64 * target_w as u64;
    let h64: u64 = prod / width as u64;
    assert(h64 <= height) by (nonlinear_arith)
        requires
            prod == height as int * target_w as int,
            h64 == prod as int / width as int,
            width > target_w,
    ;
    let h: u32 = if h64 < 1 {
        1
    } else {
        h64 as u32
    };
    Some((target_w, h))
}

} // verus!
