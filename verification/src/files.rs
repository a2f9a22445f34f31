//! Local files as the sync engine sees them: a name, a size and two
//! timestamps. Which files are images is decided by their names.

use crate::text::text_view;
use vstd::prelude::*;
use vstd::string::*;

verus! {

/// The RFC 3339 text of the UTC instant `secs` seconds and `nanos`
/// nanoseconds after the Unix epoch, as chrono writes it; `None` where chrono
/// has no date for the pair.
pub uninterp spec fn rfc3339_utc(secs: int, nanos: int) -> Option<Seq<char>>;

/// Trusted: chrono's `DateTime::<Utc>::from_timestamp(secs, nanos)` followed,
/// where it yields a date, by `DateTime::to_rfc3339`. Both depend on their
/// arguments alone, so the outcome is named `rfc3339_utc`; nothing more is
/// claimed of it. `from_timestamp` answers `None` outside chrono's range and
/// does not panic; `to_rfc3339` writes into a `String`, which cannot fail.
#[verifier::external_body]
fn format_rfc3339_utc(secs: i64, nanos: u32) -> (r: Option<String>)
    ensures
        text_view(r) == rfc3339_utc(secs as int, nanos as int),
{
    match chrono::DateTime::from_timestamp(secs, nanos) {
        Some(moment) => Some(moment.to_rfc3339()),
        None => None,
    }
}

/// An instant in time, counted from the Unix epoch.
pub struct Instant {
    pub secs: int,
    pub nanos: int,
}

impl Instant {
    /// `self` is not later than `other`.
    pub open spec fn not_after(self, other: Instant) -> bool {
        self.secs < other.secs || (self.secs == other.secs && self.nanos <= other.nanos)
    }

    /// `self` is earlier than `other`.
    pub open spec fn before(self, other: Instant) -> bool {
        self.secs < other.secs || (self.secs == other.secs && self.nanos < other.nanos)
    }

    /// The RFC 3339 text of the instant. Meaningful for the instants that a
    /// `Timestamp` can hold.
    pub open spec fn text(self) -> Seq<char> {
        rfc3339_utc(self.secs, self.nanos)->Some_0
    }
}

/// A file timestamp that has an RFC 3339 text: every value of this type can
/// be written into an upload request.
#[derive(Clone, Copy, Debug, PartialEq, Eq)]
pub struct Timestamp {
    secs: i64,
    nanos: u32,
}

impl View for Timestamp {
    type V = Instant;

    closed spec fn view(&self) -> Instant {
        Instant { secs: self.secs as int, nanos: self.nanos as int }
    }
}

impl Timestamp {
    /// Every timestamp has an RFC 3339 text.
    #[verifier::type_invariant]
    spec fn has_text(self) -> bool {
        rfc3339_utc(self.secs as int, self.nanos as int) is Some
    }

    /// The timestamp `secs` seconds and `nanos` nanoseconds after the Unix
    /// epoch, or `None` if that instant has no RFC 3339 text.
    pub fn new(secs: i64, nanos: u32) -> (r: Option<Timestamp>)
        ensures
            r is Some <==> rfc3339_utc(secs as int, nanos as int) is Some,
            r matches Some(t) ==> t@ == (Instant { secs: secs as int, nanos: nanos as int }),
    {
        match format_rfc3339_utc(secs, nanos) {
            Some(_) => Some(Timestamp { secs, nanos }),
            None => None,
        }
    }

    /// Whole seconds since the Unix epoch.
    pub fn secs(&self) -> (r: i64)
        ensures
            r == self@.secs,
    {
        self.secs
    }

    /// Nanoseconds past the whole second.
    pub fn nanos(&self) -> (r: u32)
        ensures
            r == self@.nanos,
    {
        self.nanos
    }

    /// Whether `self` is earlier than `other`.
    pub fn before(&self, other: &Timestamp) -> (r: bool)
        ensures
            r == self@.before(other@),
    {
        self.secs < other.secs || (self.secs == other.secs && self.nanos < other.nanos)
    }

    /// The RFC 3339 text of the timestamp.
    pub fn to_rfc3339(&self) -> (r: String)
        ensures
            r@ == self@.text(),
            rfc3339_utc(self@.secs, self@.nanos) is Some,
    {
        proof {
            use_type_invariant(self);
        }
        match format_rfc3339_utc(self.secs, self.nanos) {
            Some(text) => text,
            None => vstd::pervasive::unreached(),
        }
    }
}

/// A file of the local directory. For the ledger its identity is `filename`
/// alone: two files of one name are one sync unit.
#[derive(Clone, Debug, PartialEq, Eq)]
pub struct LocalFile {
    pub path: String,
    pub filename: String,
    pub size: u64,
    pub created: Timestamp,
    pub modified: Timestamp,
}

/// What a `LocalFile` holds, as mathematical values.
pub struct FileInfo {
    pub path: Seq<char>,
    pub filename: Seq<char>,
    pub size: nat,
    pub created: Instant,
    pub modified: Instant,
}

impl View for LocalFile {
    type V = FileInfo;

    open spec fn view(&self) -> FileInfo {
        FileInfo {
            path: self.path@,
            filename: self.filename@,
            size: self.size as nat,
            created: self.created@,
            modified: self.modified@,
        }
    }
}

/// The views of a sequence of files.
pub open spec fn file_views(files: Seq<LocalFile>) -> Seq<FileInfo> {
    files.map_values(|f: LocalFile| f@)
}

/// The index of the last `.` of `name`, or -1 if it has none.
pub open spec fn last_dot(name: Seq<char>) -> int
    decreases name.len(),
{
    if name.len() == 0 {
        -1
    } else if name.last() == '.' {
        name.len() - 1
    } else {
        last_dot(name.drop_last())
    }
}

/// The extension of a file name: what follows its last `.`, unless the name
/// has no `.` or its only `.` is its first character.
pub open spec fn extension(name: Seq<char>) -> Option<Seq<char>> {
    let dot = last_dot(name);
    if dot > 0 {
        Some(name.subrange(dot + 1, name.len() as int))
    } else {
        None
    }
}

/// `last_dot` is the place of a `.` after which no other follows.
pub proof fn lemma_last_dot(name: Seq<char>)
    ensures
        -1 <= last_dot(name) < name.len(),
        last_dot(name) >= 0 ==> name[last_dot(name)] == '.',
        forall|j: int| last_dot(name) < j < name.len() ==> name[j] != '.',
    decreases name.len(),
{
    if name.len() > 0 && name.last() != '.' {
        let front = name.drop_last();
        lemma_last_dot(front);
        assert forall|j: int| last_dot(name) < j < name.len() implies name[j] != '.' by {
            if j < front.len() {
                assert(front[j] == name[j]);
            }
        }
    }
}

/// The lower-case form of an ASCII capital; any other character unchanged.
pub open spec fn ascii_lower(c: char) -> char {
    if 'A' <= c && c <= 'Z' {
        ((c as u8) + 32) as char
    } else {
        c
    }
}

/// `text` equals `lower` once its ASCII capitals are made small.
pub open spec fn matches_ignoring_case(text: Seq<char>, lower: Seq<char>) -> bool {
    &&& text.len() == lower.len()
    &&& forall|k: int| 0 <= k < text.len() ==> ascii_lower(#[trigger] text[k]) == lower[k]
}

/// Whether an extension is one of the image formats that are synchronised:
/// png, jpg, jpeg or webp, in any letter case.
pub open spec fn image_extension(ext: Seq<char>) -> bool {
    ||| matches_ignoring_case(ext, "png"@)
    ||| matches_ignoring_case(ext, "jpg"@)
    ||| matches_ignoring_case(ext, "jpeg"@)
    ||| matches_ignoring_case(ext, "webp"@)
}

/// Whether a file of this name is taken: its extension is an image format.
pub open spec fn image_name(name: Seq<char>) -> bool {
    match extension(name) {
        Some(ext) => image_extension(ext),
        None => false,
    }
}

/// The lower-case form of an ASCII capital; any other character unchanged.
pub fn to_ascii_lower(c: char) -> (r: char)
    ensures
        r == ascii_lower(c),
{
    if 'A' <= c && c <= 'Z' {
        ((c as u8) + 32) as char
    } else {
        c
    }
}

/// Whether `text` equals `lower` once its ASCII capitals are made small.
pub fn eq_ignoring_case(text: &str, lower: &str) -> (r: bool)
    ensures
        r == matches_ignoring_case(text@, lower@),
{
    let n: usize = text.unicode_len();
    if n != lower.unicode_len() {
        return false;
    }
    let mut k: usize = 0;
    while k < n
        invariant
            k <= n,
            n == text@.len(),
            n == lower@.len(),
            forall|j: int| 0 <= j < k ==> ascii_lower(#[trigger] text@[j]) == lower@[j],
        decreases n - k,
    {
        if to_ascii_lower(text.get_char(k)) != lower.get_char(k) {
            return false;
        }
        k = k + 1;
    }
    true
}

/// The extension of a file name, if it has one.
pub fn extension_of(name: &str) -> (r: Option<&str>)
    ensures
        match r {
            Some(ext) => extension(name@) == Some(ext@),
            None => extension(name@) is None,
        },
{
    let n: usize = name.unicode_len();
    let mut end: usize = n;
    while end > 0 && name.get_char(end - 1) != '.'
        invariant
            end <= n,
            n == name@.len(),
            forall|j: int| end <= j < n ==> name@[j] != '.',
        decreases end,
    {
        end = end - 1;
    }
    proof {
        lemma_last_dot(name@);
        assert(last_dot(name@) == end - 1);
    }
    if end > 1 {
        Some(name.substring_char(end, n))
    } else {
        None
    }
}

/// Whether an extension is one of the image formats that are synchronised.
pub fn is_image_extension(ext: &str) -> (r: bool)
    ensures
        r == image_extension(ext@),
{
    eq_ignoring_case(ext, "png") || eq_ignoring_case(ext, "jpg") || eq_ignoring_case(ext, "jpeg")
        || eq_ignoring_case(ext, "webp")
}

/// Whether a file of this name is taken for synchronisation.
pub fn is_image_name(name: &str) -> (r: bool)
    ensures
        r == image_name(name@),
{
    match extension_of(name) {
        Some(ext) => is_image_extension(ext),
        None => false,
    }
}

} // verus!
