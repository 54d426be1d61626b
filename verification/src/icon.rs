//! Icon classification and caching: an icon specification is an emoji, a
//! URL, inline base64 data, a file path, or an executable to extract
//! from, and each kind resolves to a uniform record.
//!
//! Reading icon files and probing the file system are the surrounding
//! application's work: file-backed icons are resolved there and handed in
//! as bytes, while this module classifies specifications, encodes file
//! data, and keeps the in-memory cache.

use vstd::prelude::*;
use crate::text::str_eq;
use crate::text::starts_with;
use crate::text::str_starts_with;
use crate::text::lower_seq;
use crate::text::to_lower;
use crate::text::rfind_char;
use crate::text::rfind_char_vec;
use crate::text::str_chars;
use crate::text::chars_to_string;
use crate::text::hex_str;
use crate::text::u64_to_hex_string;

verus! {

/// A resolved icon: where it came from, what kind it is, and its data
/// URL when the data is inline.
#[derive(Debug, Clone)]
pub struct IconInfo {
    pub path: String,
    pub icon_type: IconType,
    pub size: Option<IconSize>,
    pub data_url: Option<String>,
    pub extracted_from: Option<String>,
}

#[derive(Debug, Clone, Copy, PartialEq, Eq, Structural)]
pub enum IconType {
    Emoji,
    File,
    Extracted,
    Url,
    Base64,
}

#[derive(Debug, Clone, Copy, PartialEq, Eq, Structural)]
pub struct IconSize {
    pub width: u32,
    pub height: u32,
}

/// Cache statistics: how many icons are cached in memory, how large the
/// on-disk cache is (measured by the caller), and where it lives.
#[derive(Debug, Clone)]
pub struct CacheStats {
    pub cached_icons: usize,
    pub cache_size_bytes: u64,
    pub cache_directory: String,
}

/// Why an icon could not be processed.
#[derive(Debug, Clone, Copy, PartialEq, Eq, Structural)]
pub enum IconError {
    UnsupportedFormat,
}

/// Whether a specification is a single character in the common emoji
/// ranges.
pub open spec fn is_emoji_spec(s: Seq<char>) -> bool {
    s.len() == 1 && {
        let code = s[0] as u32;
        (0x1F600 <= code && code <= 0x1F64F) || (0x1F300 <= code && code <= 0x1F5FF) || (0x1F680
            <= code && code <= 0x1F6FF) || (0x1F1E6 <= code && code <= 0x1F1FF) || (0x2600 <= code
            && code <= 0x26FF) || (0x2700 <= code && code <= 0x27BF)
    }
}

/// Whether a specification is a web address.
pub open spec fn is_url_spec(s: Seq<char>) -> bool {
    starts_with(s, "http://"@) || starts_with(s, "https://"@)
}

/// Whether a specification is inline data.
pub open spec fn is_base64_spec(s: Seq<char>) -> bool {
    starts_with(s, "data:"@)
}

/// The characters after the last dot; empty without one.
pub open spec fn file_extension(s: Seq<char>) -> Seq<char> {
    match rfind_char(s, '.') {
        Some(d) => s.subrange(d + 1, s.len() as int),
        None => Seq::<char>::empty(),
    }
}

/// The MIME type for a lowered file extension.
pub open spec fn mime_of(ext: Seq<char>) -> Seq<char> {
    if ext == "png"@ {
        "image/png"@
    } else if ext == "jpg"@ || ext == "jpeg"@ {
        "image/jpeg"@
    } else if ext == "gif"@ {
        "image/gif"@
    } else if ext == "bmp"@ {
        "image/bmp"@
    } else if ext == "svg"@ {
        "image/svg+xml"@
    } else if ext == "ico"@ {
        "image/x-icon"@
    } else {
        "application/octet-stream"@
    }
}

/// The accumulator after hashing the characters of `s` from `i` on.
pub open spec fn fnv_from(s: Seq<char>, i: int, h: u64) -> u64
    recommends
        0 <= i <= s.len(),
    decreases s.len() - i when 0 <= i <= s.len()
{
    if i >= s.len() {
        h
    } else {
        fnv_from(s, i + 1, vstd::wrapping::u64_specs::wrapping_mul(h ^ (s[i] as u64), 0x100000001b3))
    }
}

/// The cache key hash of a source and an identifier: a 64-bit
/// multiply-and-xor fold over both strings in order.
pub open spec fn cache_key_hash(source: Seq<char>, identifier: Seq<char>) -> u64 {
    fnv_from(identifier, 0, fnv_from(source, 0, 0xcbf29ce484222325))
}

/// The first cached entry for a specification.
pub open spec fn icon_lookup(cache: Seq<(String, IconInfo)>, key: Seq<char>) -> Option<int>
    decreases cache.len(),
{
    if cache.len() == 0 {
        None
    } else if cache.first().0@ == key {
        Some(0)
    } else {
        match icon_lookup(cache.drop_first(), key) {
            Some(i) => Some(i + 1),
            None => None,
        }
    }
}

/// What a freshly classified icon record holds for a specification that
/// is not a file on disk: emojis, URLs and inline data resolve to
/// themselves, anything else to the fallback question-mark emoji.
pub open spec fn classified_icon(info: IconInfo, s: Seq<char>) -> bool {
    if is_emoji_spec(s) {
        &&& info.path@ == s
        &&& info.icon_type == IconType::Emoji
        &&& info.size is None
        &&& info.data_url is None
        &&& info.extracted_from is None
    } else if is_url_spec(s) {
        &&& info.path@ == s
        &&& info.icon_type == IconType::Url
        &&& info.size is None
        &&& info.data_url is None
        &&& info.extracted_from is None
    } else if is_base64_spec(s) {
        &&& info.path@ == "base64"@
        &&& info.icon_type == IconType::Base64
        &&& info.size is None
        &&& info.data_url matches Some(d) && d@ == s
        &&& info.extracted_from is None
    } else {
        default_icon_spec(info)
    }
}

/// The fallback icon: a question mark.
pub open spec fn default_icon_spec(info: IconInfo) -> bool {
    &&& info.path@ == "\u{2753}"@
    &&& info.icon_type == IconType::Emoji
    &&& info.size is None
    &&& info.data_url is None
    &&& info.extracted_from is None
}

/// Classifies icon specifications and caches the records in memory.
pub struct IconService {
    pub icon_cache: Vec<(String, IconInfo)>,
    pub cache_dir: String,
}

fn clone_icon_info(info: &IconInfo) -> (r: IconInfo)
    ensures
        r == *info,
{
    IconInfo {
        path: info.path.clone(),
        icon_type: info.icon_type,
        size: info.size,
        data_url: match &info.data_url {
            Some(d) => Some(d.clone()),
            None => None,
        },
        extracted_from: match &info.extracted_from {
            Some(e) => Some(e.clone()),
            None => None,
        },
    }
}

fn icon_cache_get(cache: &Vec<(String, IconInfo)>, from: usize, key: &str) -> (r: Option<usize>)
    requires
        from <= cache@.len(),
    ensures
        match r {
            Some(i) => icon_lookup(cache@.subrange(from as int, cache@.len() as int), key@)
                == Some(i - from) && from <= i < cache@.len(),
            None => icon_lookup(cache@.subrange(from as int, cache@.len() as int), key@) is None,
        },
    decreases cache@.len() - from,
{
    let ghost suffix = cache@.subrange(from as int, cache@.len() as int);
    if from >= cache.len() {
        None
    } else {
        proof {
            assert(suffix.first() == cache@[from as int]);
            assert(suffix.drop_first() =~= cache@.subrange(from + 1, cache@.len() as int));
        }
        if str_eq(cache[from].0.as_str(), key) {
            Some(from)
        } else {
            icon_cache_get(cache, from + 1, key)
        }
    }
}

impl IconService {
    /// A service with an empty in-memory cache and no cache directory
    /// yet; the application names the directory it manages on disk.
    pub fn new() -> (r: Result<IconService, IconError>)
        ensures
            r matches Ok(s) && s.icon_cache@.len() == 0 && s.cache_dir@.len() == 0,
    {
        Ok(IconService { icon_cache: Vec::new(), cache_dir: String::new() })
    }

    /// A service whose on-disk cache lives at `cache_dir`.
    pub fn with_cache_dir(cache_dir: String) -> (r: IconService)
        ensures
            r.icon_cache@.len() == 0,
            r.cache_dir == cache_dir,
    {
        IconService { icon_cache: Vec::new(), cache_dir }
    }

    /// Resolves an icon specification to a record: a cached record is
    /// returned as it is; otherwise the specification is classified, and
    /// the fresh record is cached under it. File-backed specifications
    /// are resolved by the caller before this is reached.
    pub fn process_icon(&mut self, icon_spec: &str, fallback_executable: Option<&str>) -> (r:
        Result<IconInfo, IconError>)
        ensures
            r is Ok,
            r matches Ok(info) ==> (match icon_lookup(old(self).icon_cache@, icon_spec@) {
                Some(i) => info == old(self).icon_cache@[i].1 && *final(self) == *old(self),
                None => {
                    &&& classified_icon(info, icon_spec@)
                    &&& final(self).icon_cache@.len() == old(self).icon_cache@.len() + 1
                    &&& final(self).icon_cache@.drop_last() == old(self).icon_cache@
                    &&& final(self).icon_cache@.last().0@ == icon_spec@
                    &&& final(self).icon_cache@.last().1 == info
                    &&& final(self).cache_dir == old(self).cache_dir
                },
            }),
    {
        proof {
            assert(self.icon_cache@.subrange(0, self.icon_cache@.len() as int)
                =~= self.icon_cache@);
        }
        match icon_cache_get(&self.icon_cache, 0, icon_spec) {
            Some(i) => Ok(clone_icon_info(&self.icon_cache[i].1)),
            None => {
                let info = if self.is_emoji(icon_spec) {
                    let mut p = String::new();
                    p.append(icon_spec);
                    IconInfo {
                        path: p,
                        icon_type: IconType::Emoji,
                        size: None,
                        data_url: None,
                        extracted_from: None,
                    }
                } else if self.is_url(icon_spec) {
                    self.process_url_icon(icon_spec)?
                } else if self.is_base64(icon_spec) {
                    self.process_base64_icon(icon_spec)?
                } else {
                    match fallback_executable {
                        Some(exe_path) => self.extract_executable_icon(exe_path, icon_spec)?,
                        None => self.get_default_icon()?,
                    }
                };
                let mut key = String::new();
                key.append(icon_spec);
                let stored = clone_icon_info(&info);
                self.icon_cache.push((key, stored));
                proof {
                    assert(self.icon_cache@.drop_last() =~= old(self).icon_cache@);
                }
                Ok(info)
            },
        }
    }

    /// Extracting an icon out of an executable needs the platform's
    /// shell services; here it resolves to the fallback icon.
    pub fn extract_executable_icon(&self, exe_path: &str, icon_id: &str) -> (r: Result<
        IconInfo,
        IconError,
    >)
        ensures
            r matches Ok(info) && default_icon_spec(info),
    {
        self.get_default_icon()
    }

    /// An icon record for image bytes the caller read from `file_path`:
    /// the bytes become a data URL under the extension's MIME type.
    pub fn process_image_data(&self, file_path: &str, data: &Vec<u8>) -> (r: Result<
        IconInfo,
        IconError,
    >)
        requires
            data@.len() <= usize::MAX / 4,
        ensures
            r matches Ok(info) && {
                &&& info.path@ == file_path@
                &&& info.icon_type == IconType::File
                &&& info.size is None
                &&& info.data_url matches Some(d) && d@ == "data:"@ + mime_of(
                    lower_seq(file_extension(file_path@)),
                ) + ";base64,"@ + crate::encode::base64_of(data@)
                &&& info.extracted_from is None
            },
    {
        let mime = self.get_mime_type(file_path);
        let encoded = crate::encode::base64_encode(data);
        let mut url = String::from_str("data:");
        url.append(mime);
        url.append(";base64,");
        url.append(encoded.as_str());
        let mut p = String::new();
        p.append(file_path);
        Ok(
            IconInfo {
                path: p,
                icon_type: IconType::File,
                size: None,
                data_url: Some(url),
                extracted_from: None,
            },
        )
    }

    /// A URL icon is carried through as it is.
    pub fn process_url_icon(&self, url: &str) -> (r: Result<IconInfo, IconError>)
        ensures
            r matches Ok(info) && info.path@ == url@ && info.icon_type == IconType::Url
                && info.size is None && info.data_url is None && info.extracted_from is None,
    {
        let mut p = String::new();
        p.append(url);
        Ok(
            IconInfo {
                path: p,
                icon_type: IconType::Url,
                size: None,
                data_url: None,
                extracted_from: None,
            },
        )
    }

    /// Inline data becomes the record's data URL.
    pub fn process_base64_icon(&self, base64_data: &str) -> (r: Result<IconInfo, IconError>)
        ensures
            r matches Ok(info) && info.path@ == "base64"@ && info.icon_type == IconType::Base64
                && info.size is None && (info.data_url matches Some(d) && d@ == base64_data@)
                && info.extracted_from is None,
    {
        let mut d = String::new();
        d.append(base64_data);
        Ok(
            IconInfo {
                path: String::from_str("base64"),
                icon_type: IconType::Base64,
                size: None,
                data_url: Some(d),
                extracted_from: None,
            },
        )
    }

    /// The fallback icon when nothing else applies.
    pub fn get_default_icon(&self) -> (r: Result<IconInfo, IconError>)
        ensures
            r matches Ok(info) && default_icon_spec(info),
    {
        Ok(
            IconInfo {
                path: String::from_str("\u{2753}"),
                icon_type: IconType::Emoji,
                size: None,
                data_url: None,
                extracted_from: None,
            },
        )
    }

    /// Whether the specification is a single emoji character.
    pub fn is_emoji(&self, icon_spec: &str) -> (r: bool)
        ensures
            r == is_emoji_spec(icon_spec@),
    {
        if icon_spec.unicode_len() != 1 {
            return false;
        }
        let code = icon_spec.get_char(0) as u32;
        (0x1F600 <= code && code <= 0x1F64F) || (0x1F300 <= code && code <= 0x1F5FF) || (0x1F680
            <= code && code <= 0x1F6FF) || (0x1F1E6 <= code && code <= 0x1F1FF) || (0x2600 <= code
            && code <= 0x26FF) || (0x2700 <= code && code <= 0x27BF)
    }

    /// Whether the specification is a web address.
    pub fn is_url(&self, icon_spec: &str) -> (r: bool)
        ensures
            r == is_url_spec(icon_spec@),
    {
        str_starts_with(icon_spec, "http://") || str_starts_with(icon_spec, "https://")
    }

    /// Whether the specification is inline data.
    pub fn is_base64(&self, icon_spec: &str) -> (r: bool)
        ensures
            r == is_base64_spec(icon_spec@),
    {
        str_starts_with(icon_spec, "data:")
    }

    /// The MIME type for a file path, by its lowered extension.
    pub fn get_mime_type(&self, file_path: &str) -> (r: &'static str)
        ensures
            r@ == mime_of(lower_seq(file_extension(file_path@))),
    {
        let v = str_chars(file_path);
        let n = v.len();
        let ext_chars = match rfind_char_vec(&v, '.') {
            Some(d) => crate::text::copy_range(&v, d + 1, n),
            None => Vec::new(),
        };
        let ext_string = chars_to_string(&ext_chars);
        let lowered = to_lower(ext_string.as_str());
        let e = lowered.as_str();
        proof {
            assert(Seq::<char>::empty() =~= lower_seq(Seq::<char>::empty()));
        }
        if str_eq(e, "png") {
            "image/png"
        } else if str_eq(e, "jpg") || str_eq(e, "jpeg") {
            "image/jpeg"
        } else if str_eq(e, "gif") {
            "image/gif"
        } else if str_eq(e, "bmp") {
            "image/bmp"
        } else if str_eq(e, "svg") {
            "image/svg+xml"
        } else if str_eq(e, "ico") {
            "image/x-icon"
        } else {
            "application/octet-stream"
        }
    }

    /// Reading dimensions out of raw image bytes is not attempted; no
    /// size is reported for file-backed icons.
    pub fn get_image_dimensions(&self, file_data: &Vec<u8>) -> (r: Option<IconSize>)
        ensures
            r is None,
    {
        None
    }

    /// The cache file key for an icon source and identifier: a 64-bit
    /// fold over both strings, rendered in hexadecimal.
    pub fn generate_cache_key(&self, source: &str, identifier: &str) -> (r: String)
        ensures
            r@ == hex_str(cache_key_hash(source@, identifier@) as nat),
    {
        let sv = str_chars(source);
        let iv = str_chars(identifier);
        let mut h: u64 = 0xcbf29ce484222325;
        let mut i: usize = 0;
        while i < sv.len()
            invariant
                i <= sv@.len(),
                fnv_from(sv@, i as int, h) == fnv_from(sv@, 0, 0xcbf29ce484222325),
            decreases sv@.len() - i,
        {
            h = (h ^ (sv[i] as u64)).wrapping_mul(0x100000001b3);
            i = i + 1;
        }
        let ghost mid = h;
        let mut j: usize = 0;
        while j < iv.len()
            invariant
                j <= iv@.len(),
                fnv_from(iv@, j as int, h) == fnv_from(iv@, 0, mid),
                mid == fnv_from(sv@, 0, 0xcbf29ce484222325),
            decreases iv@.len() - j,
        {
            h = (h ^ (iv[j] as u64)).wrapping_mul(0x100000001b3);
            j = j + 1;
        }
        u64_to_hex_string(h)
    }

    /// Forgets every cached record; removing the on-disk cache files is
    /// the caller's work.
    pub fn clear_cache(&mut self) -> (r: Result<(), IconError>)
        ensures
            r is Ok,
            final(self).icon_cache@.len() == 0,
            final(self).cache_dir == old(self).cache_dir,
    {
        self.icon_cache.clear();
        Ok(())
    }

    /// The cache statistics; the caller measures the on-disk size and
    /// hands it in.
    pub fn get_cache_stats(&self, cache_dir_size_bytes: u64) -> (r: CacheStats)
        ensures
            r.cached_icons == self.icon_cache@.len(),
            r.cache_size_bytes == cache_dir_size_bytes,
            r.cache_directory == self.cache_dir,
    {
        CacheStats {
            cached_icons: self.icon_cache.len(),
            cache_size_bytes: cache_dir_size_bytes,
            cache_directory: self.cache_dir.clone(),
        }
    }
}

} // verus!
