//! Where records are kept: the file formats, and the names of the files.

use crate::error::{LastFmError, LastFmErrorView};
use crate::text::chars_of;
use crate::types::plain_result;
use vstd::prelude::*;
use vstd::string::StringExecFns;

verus! {

/// The lower-case form of an ASCII letter; any other character is itself.
pub open spec fn ascii_lower(c: char) -> char {
    if 'A' <= c && c <= 'Z' {
        ((c as u8 + 32) as u8) as char
    } else {
        c
    }
}

/// Whether `a` and `b` are the same text but for the case of ASCII letters.
pub open spec fn same_ignoring_case(a: Seq<char>, b: Seq<char>) -> bool {
    &&& a.len() == b.len()
    &&& forall|i: int| 0 <= i < a.len() ==> ascii_lower(#[trigger] a[i]) == ascii_lower(b[i])
}

fn lower(c: char) -> (r: char)
    ensures
        r == ascii_lower(c),
{
    if 'A' <= c && c <= 'Z' {
        (c as u8 + 32) as char
    } else {
        c
    }
}

/// Whether `a` and `b` are the same text but for the case of ASCII letters.
pub fn eq_ignore_ascii_case(a: &str, b: &str) -> (r: bool)
    ensures
        r == same_ignoring_case(a@, b@),
{
    let x = chars_of(a);
    let y = chars_of(b);
    if x.len() != y.len() {
        return false;
    }
    let mut i: usize = 0;
    while i < x.len()
        invariant
            i <= x.len(),
            x.len() == y.len(),
            x@ == a@,
            y@ == b@,
            forall|j: int| 0 <= j < i ==> ascii_lower(#[trigger] x@[j]) == ascii_lower(y@[j]),
        decreases x.len() - i,
    {
        if lower(x[i]) != lower(y[i]) {
            return false;
        }
        i = i + 1;
    }
    true
}

/// The format of a file of records.
#[derive(Debug, Clone, Copy, PartialEq, Eq, Structural)]
pub enum FileFormat {
    Json,
    Csv,
}

impl FileFormat {
    /// The ending of the names of the files of this format.
    pub open spec fn extension_text(self) -> Seq<char> {
        match self {
            FileFormat::Json => "json"@,
            FileFormat::Csv => "csv"@,
        }
    }

    /// The format whose files end in `extension`, in any case of letters.
    pub open spec fn of_extension(extension: Seq<char>) -> Option<FileFormat> {
        if same_ignoring_case(extension, "json"@) {
            Some(FileFormat::Json)
        } else if same_ignoring_case(extension, "csv"@) {
            Some(FileFormat::Csv)
        } else {
            None
        }
    }

    /// The ending of the names of the files of this format.
    pub fn extension(&self) -> (s: &'static str)
        ensures
            s@ == self.extension_text(),
    {
        match self {
            FileFormat::Json => "json",
            FileFormat::Csv => "csv",
        }
    }

    /// The format whose files end in `extension`, in any case of letters.
    pub fn from_extension(extension: &str) -> (format: Option<FileFormat>)
        ensures
            format == Self::of_extension(extension@),
    {
        if eq_ignore_ascii_case(extension, "json") {
            Some(FileFormat::Json)
        } else if eq_ignore_ascii_case(extension, "csv") {
            Some(FileFormat::Csv)
        } else {
            None
        }
    }
}

/// The name of the file for records saved at the time `timestamp`: in the
/// directory `data`, the prefix, `_`, the time, and the ending of the format.
pub open spec fn data_file_name(prefix: Seq<char>, timestamp: Seq<char>, format: FileFormat) -> Seq<
    char,
> {
    "data/"@ + prefix + "_"@ + timestamp + "."@ + format.extension_text()
}

/// The format of the file to append to, by the ending of its name. A name
/// without an ending, or with another, has none.
pub open spec fn format_of_ending(extension: Option<Seq<char>>) -> Result<
    FileFormat,
    LastFmErrorView,
> {
    match extension {
        Some(e) => match FileFormat::of_extension(e) {
            Some(format) => Ok(format),
            None => Err(LastFmErrorView::Io("Unsupported file format"@)),
        },
        None => Err(LastFmErrorView::Io("Unsupported file format"@)),
    }
}

/// The entry point for the names and formats of the files of records.
pub struct FileHandler;

impl FileHandler {
    /// The name of the file for records saved at the time `timestamp`.
    pub fn file_name(filename_prefix: &str, timestamp: &str, format: &FileFormat) -> (name: String)
        ensures
            name@ == data_file_name(filename_prefix@, timestamp@, *format),
    {
        let mut name = "data/".to_owned();
        name.append(filename_prefix);
        name.append("_");
        name.append(timestamp);
        name.append(".");
        name.append(format.extension());
        name
    }

    /// The format of the file to append to, by the ending of its name.
    pub fn format_for(extension: Option<&str>) -> (r: Result<FileFormat, LastFmError>)
        ensures
            plain_result(r) == format_of_ending(
                match extension {
                    Some(e) => Some(e@),
                    None => None,
                },
            ),
    {
        let found = match extension {
            Some(e) => FileFormat::from_extension(e),
            None => None,
        };
        match found {
            Some(format) => Ok(format),
            None => Err(LastFmError::Io("Unsupported file format".to_owned())),
        }
    }
}

} // verus!
