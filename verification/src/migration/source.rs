//! Where migration records come from.
use crate::migration::error::MigrationError;
use crate::migration::model::{EntityType, OldRecord};
use crate::text::{copy_str, push_str, str_eq, str_eq_ignore_case, eq_ignore_case};
use vstd::prelude::*;

verus! {

/// Supported input formats.
#[derive(Clone, Copy, Debug, Default, PartialEq, Eq, Structural)]
pub enum SourceFormat {
    /// Comma-separated values.
    #[default]
    Csv,
    /// JSON array.
    Json,
}

/// The format named by `s`, compared without regard to ASCII case.
pub open spec fn format_named(s: Seq<char>) -> Option<SourceFormat> {
    if eq_ignore_case(s, "csv"@) {
        Some(SourceFormat::Csv)
    } else if eq_ignore_case(s, "json"@) {
        Some(SourceFormat::Json)
    } else {
        None
    }
}

impl SourceFormat {
    /// Parses a format name (`csv` or `json`, in any case).
    ///
    /// Neither name holds a `k`, so the ASCII comparison is the same as
    /// comparing the Unicode lowercase of `s`.
    pub fn parse(s: &str) -> (r: Result<SourceFormat, MigrationError>)
        ensures
            r matches Ok(f) ==> format_named(s@) == Some(f),
            r matches Err(e) ==> format_named(s@) is None && (e matches MigrationError::Other(m)
                && m@ == "unknown source format: "@ + s@),
    {
        if str_eq_ignore_case(s, "csv") {
            Ok(SourceFormat::Csv)
        } else if str_eq_ignore_case(s, "json") {
            Ok(SourceFormat::Json)
        } else {
            let mut m = copy_str("unknown source format: ");
            push_str(&mut m, s);
            Err(MigrationError::Other(m))
        }
    }
}

impl std::str::FromStr for SourceFormat {
    type Err = MigrationError;

    fn from_str(s: &str) -> (r: Result<SourceFormat, MigrationError>)
        ensures
            r matches Ok(f) ==> format_named(s@) == Some(f),
            r matches Err(e) ==> format_named(s@) is None && (e matches MigrationError::Other(m)
                && m@ == "unknown source format: "@ + s@),
    {
        SourceFormat::parse(s)
    }
}

/// Name of the extension that `std::path::Path::extension` finds in a path
/// (the text after the last `.` of the file name, when there is one).
pub uninterp spec fn path_extension(path: Seq<char>) -> Option<Seq<char>>;

/// Calls `std::path::Path::extension` on `path`; the result is believed to
/// be `path_extension` of the path, nothing more.
#[verifier::external_body]
fn extension_of(path: &str) -> (r: Option<String>)
    ensures
        r matches Some(e) ==> path_extension(path@) == Some(e@),
        r is None ==> path_extension(path@) is None,
{
    std::path::Path::new(path).extension().and_then(|e| e.to_str()).map(String::from)
}

/// The format that a file extension stands for: JSON for exactly `json`,
/// CSV otherwise.
pub open spec fn format_for(ext: Option<Seq<char>>) -> SourceFormat {
    if ext == Some("json"@) {
        SourceFormat::Json
    } else {
        SourceFormat::Csv
    }
}

/// File-based record source.
#[derive(Clone, Debug)]
pub struct FileSource {
    /// Path to the source file.
    path: String,
    /// Explicit format, or inferred from the extension.
    format: SourceFormat,
}

impl FileSource {
    /// Path to the source file.
    pub closed spec fn path_view(&self) -> Seq<char> {
        self.path@
    }

    /// Format of the source file.
    pub closed spec fn format_view(&self) -> SourceFormat {
        self.format
    }

    /// The format that a file extension stands for.
    pub fn format_for_extension(ext: Option<&str>) -> (f: SourceFormat)
        ensures
            f == format_for(match ext {
                Some(e) => Some(e@),
                None => None,
            }),
    {
        match ext {
            Some(e) => if str_eq(e, "json") {
                SourceFormat::Json
            } else {
                SourceFormat::Csv
            },
            None => SourceFormat::Csv,
        }
    }

    /// Infers the format from the path's extension.
    pub fn infer_format(path: &str) -> (f: SourceFormat)
        ensures
            f == format_for(path_extension(path@)),
    {
        let ext = extension_of(path);
        match ext {
            Some(e) => FileSource::format_for_extension(Some(e.as_str())),
            None => FileSource::format_for_extension(None),
        }
    }

    /// Creates a new file source, inferring the format from the extension
    /// when not provided.
    pub fn new(path: &str, format: Option<SourceFormat>) -> (r: Result<FileSource, MigrationError>)
        ensures
            r matches Ok(s) && s.path_view() == path@ && s.format_view() == match format {
                Some(f) => f,
                None => format_for(path_extension(path@)),
            },
    {
        let f = match format {
            Some(f) => f,
            None => FileSource::infer_format(path),
        };
        Ok(FileSource { path: copy_str(path), format: f })
    }

    /// Path to the source file.
    pub fn path(&self) -> (p: &str)
        ensures
            p@ == self.path_view(),
    {
        self.path.as_str()
    }

    /// Format of the source file.
    pub fn format(&self) -> (f: SourceFormat)
        ensures
            f == self.format_view(),
    {
        self.format
    }
}

/// A CSV row that carries nothing: no entity type, external ID or name.
pub open spec fn is_blank(r: OldRecord) -> bool {
    r.entity_type == EntityType::Unknown && r.external_id@.len() == 0 && r.name@.len() == 0
}

/// Drops the blank rows that sometimes appear at the end of CSV exports,
/// keeping the others in order.
pub fn drop_blank_rows(rows: Vec<OldRecord>) -> (out: Vec<OldRecord>)
    ensures
        out@ == rows@.filter(|r: OldRecord| !is_blank(r)),
{
    let ghost rs = rows@;
    let mut out: Vec<OldRecord> = Vec::new();
    for r in iter: rows.into_iter()
        invariant
            iter.seq() == rs,
            out@ == iter.seq().take(iter.index() as int).filter(|r: OldRecord| !is_blank(r)),
    {
        proof {
            reveal(Seq::filter);
            assert(iter.seq().take(iter.index() + 1).drop_last() =~= iter.seq().take(
                iter.index() as int,
            ));
        }
        let blank = r.entity_type == EntityType::Unknown && r.external_id.as_str().is_empty()
            && r.name.as_str().is_empty();
        if !blank {
            out.push(r);
        }
    }
    assert(rs.take(rs.len() as int) =~= rs);
    out
}

} // verus!
