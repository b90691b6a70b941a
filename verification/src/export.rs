//! Choosing the format of an export from the file name.

use vstd::prelude::*;

use crate::input::{ascii_lower, to_ascii_lowercase};
use crate::text::{chars_of, wipe_chars};

verus! {

/// The file formats a vault can be exported to.
#[derive(Clone, Copy, PartialEq, Eq, Debug, Structural)]
pub enum ExportFormat {
    Kdbx,
    Csv,
    Json,
}

/// Why no export format was found for a file name.
#[derive(Clone, Copy, PartialEq, Eq, Debug, Structural)]
pub enum FormatError {
    /// The extension is none of `.kdbx`, `.csv` and `.json`.
    UnrecognizedExtension,
}

impl FormatError {
    /// The message shown to the user.
    pub fn message(&self) -> (r: String)
        ensures
            r@ == "unrecognized file extension, expected .kdbx, .csv, or .json"@,
    {
        let mut r = String::new();
        crate::text::push_str(&mut r, "unrecognized file extension, expected .kdbx, .csv, or .json");
        r
    }
}

/// The extension of a path, as `std::path::Path::extension` finds it.
pub uninterp spec fn extension_of(path: Seq<char>) -> Option<Seq<char>>;

/// `Path::extension`: the part of the file name after its last dot, if the
/// path has a file name with a dot that does not start it. Nothing more than
/// the name is claimed.
#[verifier::external_body]
fn path_extension(path: &str) -> (r: Option<String>)
    ensures
        match r {
            Some(e) => extension_of(path@) == Some(e@),
            None => extension_of(path@) is None,
        },
{
    std::path::Path::new(path).extension().and_then(|e| e.to_str()).map(|e| e.to_string())
}

/// The ASCII lowercase of every character.
pub open spec fn lower_seq(s: Seq<char>) -> Seq<char> {
    s.map_values(|c: char| ascii_lower(c))
}

/// The export format an extension names, matched without regard to ASCII
/// case.
pub open spec fn format_for(ext: Option<Seq<char>>) -> Result<ExportFormat, FormatError> {
    match ext {
        Some(e) => if lower_seq(e) == seq!['k', 'd', 'b', 'x'] {
            Ok(ExportFormat::Kdbx)
        } else if lower_seq(e) == seq!['c', 's', 'v'] {
            Ok(ExportFormat::Csv)
        } else if lower_seq(e) == seq!['j', 's', 'o', 'n'] {
            Ok(ExportFormat::Json)
        } else {
            Err(FormatError::UnrecognizedExtension)
        },
        None => Err(FormatError::UnrecognizedExtension),
    }
}

/// Whether `v` holds exactly the characters of `w`.
fn same_chars(v: &Vec<char>, w: &[char]) -> (r: bool)
    ensures
        r == (v@ == w@),
{
    if v.len() != w.len() {
        return false;
    }
    let mut i: usize = 0;
    while i < v.len()
        invariant
            v@.len() == w@.len(),
            i <= v@.len(),
            forall|j: int| 0 <= j < i ==> v@[j] == w@[j],
        decreases v@.len() - i,
    {
        if v[i] != w[i] {
            return false;
        }
        i = i + 1;
    }
    assert(v@ == w@);
    true
}

/// The export format for a file extension (or for a path without one).
pub fn format_for_extension(ext: Option<&str>) -> (r: Result<ExportFormat, FormatError>)
    ensures
        r == format_for(
            match ext {
                Some(e) => Some(e@),
                None => None,
            },
        ),
{
    let e = match ext {
        Some(e) => e,
        None => return Err(FormatError::UnrecognizedExtension),
    };
    let mut chars = chars_of(e);
    let n = chars.len();
    let mut i: usize = 0;
    while i < n
        invariant
            n == chars@.len(),
            i <= n,
            chars@.len() == e@.len(),
            forall|j: int| 0 <= j < i ==> chars@[j] == ascii_lower(e@[j]),
            forall|j: int| i <= j < n ==> chars@[j] == e@[j],
        decreases n - i,
    {
        let lowered = to_ascii_lowercase(chars[i]);
        chars.set(i, lowered);
        i = i + 1;
    }
    assert(chars@ == lower_seq(e@));
    let kdbx = ['k', 'd', 'b', 'x'];
    let csv = ['c', 's', 'v'];
    let json = ['j', 's', 'o', 'n'];
    assert(kdbx@ == seq!['k', 'd', 'b', 'x']);
    assert(csv@ == seq!['c', 's', 'v']);
    assert(json@ == seq!['j', 's', 'o', 'n']);
    let r = if same_chars(&chars, &kdbx) {
        Ok(ExportFormat::Kdbx)
    } else if same_chars(&chars, &csv) {
        Ok(ExportFormat::Csv)
    } else if same_chars(&chars, &json) {
        Ok(ExportFormat::Json)
    } else {
        Err(FormatError::UnrecognizedExtension)
    };
    wipe_chars(&mut chars);
    r
}

/// The export format for a file, chosen by the extension of its name.
pub fn detect_format(path: &str) -> (r: Result<ExportFormat, FormatError>)
    ensures
        r == format_for(extension_of(path@)),
{
    match path_extension(path) {
        Some(e) => format_for_extension(Some(e.as_str())),
        None => format_for_extension(None),
    }
}

} // verus!
