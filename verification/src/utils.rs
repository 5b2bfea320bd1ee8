//! Small helpers: the operating systems and their directories, export file
//! types, elapsed time as text, random names and the clock.

use crate::text::{i64_to_text, signed_decimal};
use vstd::prelude::*;
use vstd::string::*;

verus! {

/// The operating systems that the service runs on.
#[derive(Debug, Clone, Copy, PartialEq, Eq, Structural)]
pub enum OperatingSystem {
    Windows,
    Linux,
    MacOS,
}

/// The file types that a result can be exported as.
#[derive(Debug, Clone, Copy, PartialEq, Eq, Structural)]
pub enum FileType {
    CSV,
    JSON,
    DnJson,
    TSV,
}

impl OperatingSystem {
    /// Where the data lies unless configured otherwise, for a user whose
    /// home directory is `home`.
    pub open spec fn default_data_dir_text(self, home: Seq<char>) -> Seq<char> {
        match self {
            OperatingSystem::Windows => "C:\\ProgramData\\easydb"@,
            OperatingSystem::Linux => "/var/lib/easydb"@,
            OperatingSystem::MacOS => home + "/Documents/easydb"@,
        }
    }

    /// Where exported files are written.
    pub open spec fn tmp_dir_text(self) -> Seq<char> {
        match self {
            OperatingSystem::Windows => "C:\\Windows\\Temp\\"@,
            OperatingSystem::Linux => "/tmp/easydb/"@,
            OperatingSystem::MacOS => "/tmp/easydb/"@,
        }
    }

    /// Where the data lies unless configured otherwise.
    pub fn default_data_dir(&self, home: &str) -> (dir: String)
        ensures
            dir@ == self.default_data_dir_text(home@),
    {
        match self {
            OperatingSystem::Windows => String::from_str("C:\\ProgramData\\easydb"),
            OperatingSystem::Linux => String::from_str("/var/lib/easydb"),
            OperatingSystem::MacOS => {
                let mut dir = String::from_str(home);
                dir.append("/Documents/easydb");
                dir
            },
        }
    }

    /// Where exported files are written.
    pub fn tmp_dir(&self) -> (dir: &'static str)
        ensures
            dir@ == self.tmp_dir_text(),
    {
        match self {
            OperatingSystem::Windows => "C:\\Windows\\Temp\\",
            OperatingSystem::Linux => "/tmp/easydb/",
            OperatingSystem::MacOS => "/tmp/easydb/",
        }
    }
}

impl FileType {
    /// The suffix of an exported file of this type.
    pub open spec fn extension_text(self) -> Seq<char> {
        match self {
            FileType::JSON => ".json"@,
            FileType::DnJson => ".json"@,
            FileType::CSV => ".csv"@,
            FileType::TSV => ".tsv"@,
        }
    }

    /// The suffix of an exported file of this type.
    pub fn extension(&self) -> (suffix: &'static str)
        ensures
            suffix@ == self.extension_text(),
    {
        match self {
            FileType::JSON => ".json",
            FileType::DnJson => ".json",
            FileType::CSV => ".csv",
            FileType::TSV => ".tsv",
        }
    }
}

/// Tells whether a path is relative, as `std::path::Path::is_relative`
/// does for the platform the library is built for. Nothing is claimed of
/// the answer.
#[verifier::external_body]
pub fn is_relative_path(path: &str) -> bool {
    std::path::Path::new(path).is_relative()
}

/// An elapsed time in the largest unit that it fills: milliseconds below a
/// second, whole seconds below a minute, whole minutes below an hour,
/// whole hours from there on.
pub open spec fn time_difference_text(milliseconds: int) -> Seq<char> {
    if milliseconds < 1000 {
        signed_decimal(milliseconds) + "ms"@
    } else if milliseconds / 1000 < 60 {
        signed_decimal(milliseconds / 1000) + "s"@
    } else if milliseconds / 1000 / 60 < 60 {
        signed_decimal(milliseconds / 1000 / 60) + "m"@
    } else {
        signed_decimal(milliseconds / 1000 / 3600) + "h"@
    }
}

/// An elapsed time of so many milliseconds as text.
pub fn time_difference(milliseconds: i64) -> (text: String)
    ensures
        text@ == time_difference_text(milliseconds as int),
{
    if milliseconds < 1000 {
        let mut text = i64_to_text(milliseconds);
        text.append("ms");
        text
    } else {
        let seconds = milliseconds / 1000;
        if seconds < 60 {
            let mut text = i64_to_text(seconds);
            text.append("s");
            text
        } else if seconds / 60 < 60 {
            let mut text = i64_to_text(seconds / 60);
            text.append("m");
            text
        } else {
            let mut text = i64_to_text(seconds / 3600);
            text.append("h");
            text
        }
    }
}

/// Milliseconds since the Unix epoch, from `chrono::Utc::now` and
/// `chrono::DateTime::timestamp_millis`. The contract claims that the
/// value is not negative: `chrono::Utc::now` takes the time that has
/// passed since the epoch, and panics where the system clock stands
/// before it.
#[verifier::external_body]
fn unix_milliseconds() -> (milliseconds: i64)
    ensures
        0 <= milliseconds,
{
    chrono::Utc::now().timestamp_millis()
}

/// Seconds since the Unix epoch, from `chrono::Utc::now` and
/// `chrono::DateTime::timestamp`. The contract claims that the value is
/// not negative: `chrono::Utc::now` takes the time that has passed since
/// the epoch, and panics where the system clock stands before it.
#[verifier::external_body]
pub(crate) fn unix_seconds() -> (seconds: i64)
    ensures
        0 <= seconds,
{
    chrono::Utc::now().timestamp()
}

/// The time in milliseconds from `earlier` to `later`, held within the range of
/// `i64`.
pub open spec fn elapsed_between(earlier: int, later: int) -> int {
    if later - earlier > i64::MAX {
        i64::MAX as int
    } else if later - earlier < i64::MIN {
        i64::MIN as int
    } else {
        later - earlier
    }
}

/// The time that passed between two instants, both in milliseconds since
/// the Unix epoch, as text.
pub fn time_difference_between(earlier: i64, later: i64) -> (text: String)
    ensures
        text@ == time_difference_text(elapsed_between(earlier as int, later as int)),
{
    let elapsed: i64 = if earlier < 0 && later > i64::MAX + earlier {
        i64::MAX
    } else if earlier > 0 && later < i64::MIN + earlier {
        i64::MIN
    } else {
        later - earlier
    };
    time_difference(elapsed)
}

/// The time that passed since an instant given in milliseconds since the
/// Unix epoch, as text. The clock decides how much that is.
pub fn time_difference_from_now(input_time: i64) -> (text: String)
    ensures
        exists|now: i64|
            0 <= now && text@ == time_difference_text(
                elapsed_between(input_time as int, now as int),
            ),
{
    let now = unix_milliseconds();
    time_difference_between(input_time, now)
}

/// A letter of the English alphabet or a decimal digit.
pub open spec fn is_alphanumeric(c: char) -> bool {
    ('a' <= c <= 'z') || ('A' <= c <= 'Z') || ('0' <= c <= '9')
}

/// Every character of the text is a letter or a digit.
pub open spec fn all_alphanumeric(s: Seq<char>) -> bool {
    forall|i: int| 0 <= i < s.len() ==> is_alphanumeric(#[trigger] s[i])
}

/// Draws one character with `rand::Rng::sample` from
/// `rand::distr::Alphanumeric`, the generator being `rand::rng`, and hands
/// it out as a text of its own. The contract claims that it is one of the
/// 62 letters and digits that the distribution picks from.
#[verifier::external_body]
fn random_alphanumeric() -> (drawn: String)
    ensures
        drawn@.len() == 1,
        is_alphanumeric(drawn@[0]),
{
    char::from(rand::Rng::sample(&mut rand::rng(), rand::distr::Alphanumeric)).to_string()
}

/// A text of `length` letters and digits that chance picks.
pub fn generate_random_string(length: usize) -> (random_string: String)
    ensures
        random_string@.len() == length,
        all_alphanumeric(random_string@),
{
    let mut random_string = String::new();
    let mut i: usize = 0;
    while i < length
        invariant
            i <= length,
            random_string@.len() == i,
            all_alphanumeric(random_string@),
        decreases length - i,
    {
        let drawn = random_alphanumeric();
        let ghost before = random_string@;
        random_string.append(drawn.as_str());
        proof {
            assert(random_string@ =~= before.push(drawn@[0]));
        }
        i += 1;
    }
    random_string
}

} // verus!
