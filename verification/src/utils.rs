//! Small helpers on paths, text and time.

use vstd::prelude::*;
use vstd::string::StringSliceAdditionalSpecFns;
use vstd::utf8::{decode_utf8, encode_utf8, encode_utf8_decode_utf8, is_char_boundary};
use crate::text::{lowercase, to_lowercase};
pub use crate::math::MathUtils;

verus! {

/// The final component of a path, as `std::path::Path::file_name` gives it for
/// the platform that the crate is built for; `None` where the path has none.
pub uninterp spec fn final_component(path: Seq<char>) -> Option<Seq<char>>;

/// The position of the last dot of `name`, or -1 where it has none.
pub open spec fn last_dot(name: Seq<char>) -> int
    decreases name.len(),
{
    if name.len() == 0 {
        -1
    } else if name.last() == '.' {
        name.len() - 1
    } else {
        last_dot(name.drop_last())
    }
}

/// The extension of a file name: what follows its last dot, unless the name
/// has no dot or its only dot is the first character.
pub open spec fn extension_of(name: Seq<char>) -> Option<Seq<char>> {
    if last_dot(name) <= 0 {
        None
    } else {
        Some(name.subrange(last_dot(name) + 1, name.len() as int))
    }
}

/// The extension of the final component of a path.
pub open spec fn path_extension(path: Seq<char>) -> Option<Seq<char>> {
    match final_component(path) {
        Some(name) => extension_of(name),
        None => None,
    }
}

/// Calls `std::path::Path::file_name`. Trusted: the result is named
/// `final_component` of the path. The component of a path given as text is
/// text again, so the conversion loses nothing.
#[verifier::external_body]
fn path_file_name(path: &str) -> (r: Option<String>)
    ensures
        match r {
            Some(name) => final_component(path@) == Some(name@),
            None => final_component(path@) is None,
        },
{
    match std::path::Path::new(path).file_name() {
        Some(name) => Some(name.to_string_lossy().into_owned()),
        None => None,
    }
}

/// Calls `std::path::Path::extension`. Trusted: as the standard library
/// documents, the result is the part of the file name behind its last dot,
/// and there is none where the path has no file name, the name has no dot, or
/// its only dot comes first.
#[verifier::external_body]
fn path_extension_of(path: &str) -> (r: Option<String>)
    ensures
        match r {
            Some(ext) => path_extension(path@) == Some(ext@),
            None => path_extension(path@) is None,
        },
{
    match std::path::Path::new(path).extension() {
        Some(ext) => Some(ext.to_string_lossy().into_owned()),
        None => None,
    }
}

/// Helpers on paths given as text.
pub struct FileUtils;

impl FileUtils {
    /// The extension of the path's file name, in lowercase.
    pub fn get_extension(path: &str) -> (r: Option<String>)
        ensures
            match r {
                Some(ext) => path_extension(path@) matches Some(e) && ext@ == lowercase(e),
                None => path_extension(path@) is None,
            },
    {
        match path_extension_of(path) {
            Some(ext) => Some(to_lowercase(ext.as_str())),
            None => None,
        }
    }

    /// The file name of the path, without the directories before it.
    pub fn get_filename(path: &str) -> (r: Option<String>)
        ensures
            match r {
                Some(name) => final_component(path@) == Some(name@),
                None => final_component(path@) is None,
            },
    {
        path_file_name(path)
    }
}

/// Whether a character is white space, as `char::is_whitespace` of the
/// standard library says: the Unicode property `White_Space`.
pub uninterp spec fn is_whitespace(c: char) -> bool;

/// Calls `char::is_whitespace`. Trusted: the result is named `is_whitespace`
/// of the character.
#[verifier::external_body]
fn char_is_whitespace(c: char) -> (r: bool)
    ensures
        r == is_whitespace(c),
{
    c.is_whitespace()
}

/// The characters that no file name may hold.
pub open spec fn is_reserved(c: char) -> bool {
    c == '/' || c == '\\' || c == ':' || c == '*' || c == '?' || c == '"' || c == '<' || c == '>'
        || c == '|'
}

/// A file name is valid when it is not empty and holds no reserved character.
pub open spec fn valid_filename(name: Seq<char>) -> bool {
    name.len() > 0 && forall|i: int| 0 <= i < name.len() ==> !is_reserved(#[trigger] name[i])
}

/// A text is blank when all its characters are white space.
pub open spec fn blank(text: Seq<char>) -> bool {
    forall|i: int| 0 <= i < text.len() ==> is_whitespace(#[trigger] text[i])
}

/// `text` cut to at most `max_len` bytes of UTF-8, the last three of them
/// dots: the text itself where it fits; three dots where `max_len` leaves no
/// room for more; else the first `max_len - 3` bytes and three dots.
pub open spec fn truncated(text: Seq<char>, max_len: int) -> Seq<char> {
    if encode_utf8(text).len() <= max_len {
        text
    } else if max_len <= 3 {
        "..."@
    } else {
        decode_utf8(encode_utf8(text).subrange(0, max_len - 3)) + "..."@
    }
}

/// Whether `text` can be cut to `max_len` bytes: the cut, where one is made,
/// must not fall inside a character.
pub open spec fn can_truncate(text: Seq<char>, max_len: int) -> bool {
    encode_utf8(text).len() <= max_len || max_len <= 3 || is_char_boundary(
        encode_utf8(text),
        max_len - 3,
    )
}

/// Helpers on text.
pub struct StringUtils;

impl StringUtils {
    /// Whether `s` is empty or white space only.
    pub fn is_blank(s: &str) -> (r: bool)
        ensures
            r == blank(s@),
    {
        let mut all = true;
        for c in it: s.chars()
            invariant
                it.seq() == s@,
                all == forall|k: int| 0 <= k < it.index() ==> is_whitespace(#[trigger] s@[k]),
        {
            if !char_is_whitespace(c) {
                all = false;
            }
        }
        all
    }

    /// Cuts `s` to at most `max_len` bytes, ending in three dots where it was
    /// cut.
    pub fn truncate_with_ellipsis(s: &str, max_len: usize) -> (r: String)
        requires
            can_truncate(s@, max_len as int),
        ensures
            r@ == truncated(s@, max_len as int),
    {
        if s.as_bytes().len() <= max_len {
            return s.to_owned();
        }
        if max_len <= 3 {
            return "...".to_owned();
        }
        let (head, _) = s.split_at(max_len - 3);
        proof {
            encode_utf8_decode_utf8(head@);
        }
        String::from_str(head).concat("...")
    }

    fn reserved(c: char) -> (r: bool)
        ensures
            r == is_reserved(c),
    {
        c == '/' || c == '\\' || c == ':' || c == '*' || c == '?' || c == '"' || c == '<'
            || c == '>' || c == '|'
    }

    /// Whether `s` can serve as a file name.
    pub fn is_valid_filename(s: &str) -> (r: bool)
        ensures
            r == valid_filename(s@),
    {
        if s.is_empty() {
            return false;
        }
        let mut clean = true;
        for c in it: s.chars()
            invariant
                it.seq() == s@,
                clean == forall|k: int| 0 <= k < it.index() ==> !is_reserved(#[trigger] s@[k]),
        {
            if Self::reserved(c) {
                clean = false;
            }
        }
        clean
    }
}

/// The text of a moment in UTC: `secs` seconds after the start of 1970, not
/// counting leap seconds, written after `pattern` as chrono's
/// `DateTime::from_timestamp` and `DateTime::format` give it; `None` where
/// chrono cannot represent the moment.
pub uninterp spec fn utc_text(secs: int, pattern: Seq<char>) -> Option<Seq<char>>;

/// The pattern of `TimeUtils::format_time`: year, month, day, then hours,
/// minutes and seconds.
pub open spec fn time_pattern() -> Seq<char> {
    "%Y-%m-%d %H:%M:%S"@
}

/// The value that the cast of `timestamp` to a signed 64-bit number has: the
/// upper half of the range wraps to the negative numbers.
pub open spec fn as_signed(timestamp: u64) -> int {
    if timestamp <= i64::MAX {
        timestamp as int
    } else {
        timestamp - 0x1_0000_0000_0000_0000
    }
}

/// The text that one formatting attempt and the text of the epoch yield: the
/// former where there is one, else the latter.
pub open spec fn text_or(formatted: Option<Seq<char>>, epoch: Seq<char>) -> Seq<char> {
    match formatted {
        Some(text) => text,
        None => epoch,
    }
}

/// What `TimeUtils::format_time` returns for `timestamp`.
pub open spec fn time_text(timestamp: u64) -> Seq<char> {
    text_or(utc_text(as_signed(timestamp), time_pattern()), utc_text(0, time_pattern())->0)
}

/// Calls chrono's `DateTime::from_timestamp` and formats what it returns with
/// `DateTime::format`. Trusted: the result is named `utc_text` of the
/// arguments, and the start of 1970 itself can be represented. Only the one
/// pattern is admitted: chrono panics when asked to print after a pattern that
/// it cannot parse.
#[verifier::external_body]
fn format_utc(secs: i64, pattern: &str) -> (r: Option<String>)
    requires
        pattern@ == time_pattern(),
    ensures
        match r {
            Some(text) => utc_text(secs as int, pattern@) == Some(text@),
            None => utc_text(secs as int, pattern@) is None,
        },
        secs == 0 ==> r is Some,
{
    match chrono::DateTime::from_timestamp(secs, 0) {
        Some(moment) => Some(moment.format(pattern).to_string()),
        None => None,
    }
}

/// Reads the system clock with `std::time::SystemTime::now` and takes the
/// whole seconds since the start of 1970; `None` where the clock reads
/// earlier than that. Trusted, and nothing is claimed of the number.
#[verifier::external_body]
fn clock_seconds() -> Option<u64> {
    match std::time::SystemTime::now().duration_since(std::time::UNIX_EPOCH) {
        Ok(elapsed) => Some(elapsed.as_secs()),
        Err(_) => None,
    }
}

/// Helpers on time.
pub struct TimeUtils;

impl TimeUtils {
    /// The seconds that the system clock counts since the start of 1970, or
    /// `None` where it reads a time before that.
    pub fn current_timestamp() -> Option<u64> {
        clock_seconds()
    }

    /// `timestamp` as the signed number that holds the same 64 bits.
    pub fn to_signed(timestamp: u64) -> (r: i64)
        ensures
            r == as_signed(timestamp),
    {
        if timestamp <= 0x7fff_ffff_ffff_ffff {
            timestamp as i64
        } else {
            let upper: u64 = timestamp - 0x8000_0000_0000_0000;
            i64::MIN + (upper as i64)
        }
    }

    /// The formatted text where there is one, else the text of the epoch.
    pub fn choose_text(formatted: Option<String>, epoch: String) -> (r: String)
        ensures
            r@ == text_or(
                match formatted {
                    Some(text) => Some(text@),
                    None => None,
                },
                epoch@,
            ),
    {
        match formatted {
            Some(text) => text,
            None => epoch,
        }
    }

    /// The moment `timestamp` seconds after the start of 1970 as
    /// `YYYY-MM-DD hh:mm:ss` in UTC. A number too large to be a date gives
    /// the text of the start of 1970.
    pub fn format_time(timestamp: u64) -> (r: String)
        ensures
            r@ == time_text(timestamp),
    {
        let pattern = "%Y-%m-%d %H:%M:%S";
        match format_utc(Self::to_signed(timestamp), pattern) {
            Some(text) => text,
            None => {
                let epoch = format_utc(0, pattern);
                Self::choose_text(None, epoch.unwrap())
            },
        }
    }

    /// The current time as `format_time` writes it, or `None` where the
    /// clock reads a time before 1970.
    pub fn current_time_string() -> (r: Option<String>)
        ensures
            r matches Some(text) ==> exists|now: u64| text@ == time_text(now),
    {
        Self::time_string_at(Self::current_timestamp())
    }

    /// The text for a reading of the clock: what `format_time` writes for
    /// the seconds read, and none where the clock gave no reading.
    pub fn time_string_at(reading: Option<u64>) -> (r: Option<String>)
        ensures
            match reading {
                Some(now) => r matches Some(text) && text@ == time_text(now),
                None => r is None,
            },
    {
        match reading {
            Some(now) => Some(Self::format_time(now)),
            None => None,
        }
    }
}

} // verus!
