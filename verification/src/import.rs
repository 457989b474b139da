//! The bookkeeping of a batch import: which files went in, which did not and
//! why, and which source files may be deleted.

use vstd::prelude::*;
use vstd::string::*;
use crate::db::{discard_last, insert_outcome, insert_session, without_last, Store, StoreError};
use crate::parser::{assembled, has_fit_extension, init, Malformed, Message, ParseError, Sampling,
    SessionView,
};

verus! {

/// Why a file was not imported.
#[derive(Clone, Copy, Debug, PartialEq, Eq, Structural)]
pub enum ImportError {
    /// The file could not be read or decoded.
    Unreadable,
    /// No activity could be assembled from the file.
    Parse(ParseError),
    /// The store turned the activity away.
    Store(StoreError),
}

/// The account of a batch import.
#[derive(Clone, Debug, PartialEq, Eq)]
pub struct ImportReport {
    /// The files that were imported, in order.
    pub files_imported: Vec<String>,
    /// One line for each file that was not, in order.
    pub errors: Vec<String>,
}

/// The mathematical content of an [`ImportReport`].
pub struct ImportReportView {
    pub files_imported: Seq<Seq<char>>,
    pub errors: Seq<Seq<char>>,
}

/// The text of each string of a sequence.
pub open spec fn texts(strings: Seq<String>) -> Seq<Seq<char>> {
    Seq::new(strings.len(), |i: int| strings[i]@)
}

impl View for ImportReport {
    type V = ImportReportView;

    open spec fn view(&self) -> ImportReportView {
        ImportReportView {
            files_imported: texts(self.files_imported@),
            errors: texts(self.errors@),
        }
    }
}

impl ImportError {
    /// What the report says of the error.
    pub open spec fn text(self) -> Seq<char> {
        match self {
            ImportError::Unreadable => "Failed to read data from file!"@,
            ImportError::Parse(e) => e.text(),
            ImportError::Store(e) => e.text(),
        }
    }

    /// Writes what the report says of the error.
    pub fn message(&self) -> (message: String)
        ensures
            message@ == self.text(),
    {
        match self {
            ImportError::Unreadable => "Failed to read data from file!".to_owned(),
            ImportError::Parse(e) => e.message(),
            ImportError::Store(e) => e.message(),
        }
    }
}

/// The line that the report holds for a file that was not imported.
pub open spec fn error_line(path: Seq<char>, error: ImportError) -> Seq<char> {
    match error {
        ImportError::Store(e) => "Failed to import session "@ + path + "; Error: "@ + e.text(),
        _ => "Error: "@ + error.text(),
    }
}

/// The report with the outcome for one more file entered.
pub open spec fn recorded(
    report: ImportReportView,
    path: Seq<char>,
    outcome: Result<i64, ImportError>,
) -> ImportReportView {
    match outcome {
        Ok(_) => ImportReportView {
            files_imported: report.files_imported.push(path),
            errors: report.errors,
        },
        Err(e) => ImportReportView {
            files_imported: report.files_imported,
            errors: report.errors.push(error_line(path, e)),
        },
    }
}

/// What comes of offering one file to the store: the identity of the new
/// activity, or the reason why there is none.
pub open spec fn import_outcome(
    stored: Seq<SessionView>,
    path: Seq<char>,
    decoded: Option<Seq<Message>>,
) -> Result<i64, ImportError> {
    if !has_fit_extension(path) {
        Err(ImportError::Parse(ParseError::NotFitFile))
    } else {
        match decoded {
            None => Err(ImportError::Unreadable),
            Some(messages) => match assembled(messages, Malformed::Skip, Sampling::Full) {
                Err(e) => Err(ImportError::Parse(e)),
                Ok(found) => match insert_outcome(stored, found.0) {
                    Err(e) => Err(ImportError::Store(e)),
                    Ok(_) => Ok((stored.len() + 1) as i64),
                },
            },
        }
    }
}

impl ImportReport {
    /// A report of nothing yet.
    pub fn new() -> (report: ImportReport)
        ensures
            report@ == (ImportReportView {
                files_imported: Seq::empty(),
                errors: Seq::empty(),
            }),
    {
        let report = ImportReport { files_imported: Vec::new(), errors: Vec::new() };
        assert(texts(report.files_imported@) =~= Seq::<Seq<char>>::empty());
        assert(texts(report.errors@) =~= Seq::<Seq<char>>::empty());
        report
    }

    /// Enters the outcome for one file, and tells whether its source file
    /// may be deleted: only an imported file may.
    pub fn record(&mut self, path: &String, outcome: Result<i64, ImportError>) -> (delete: bool)
        ensures
            final(self)@ == recorded(old(self)@, path@, outcome),
            delete == outcome is Ok,
    {
        match outcome {
            Ok(_) => {
                self.files_imported.push(path.clone());
                assert(texts(self.files_imported@) =~= texts(old(self).files_imported@).push(
                    path@,
                ));
                true
            },
            Err(e) => {
                let line = match e {
                    ImportError::Store(reason) => {
                        let mut line: String = "Failed to import session ".to_owned();
                        line.append(path.as_str());
                        line.append("; Error: ");
                        line.append(reason.message().as_str());
                        line
                    },
                    _ => {
                        let mut line: String = "Error: ".to_owned();
                        line.append(e.message().as_str());
                        line
                    },
                };
                assert(line@ =~= error_line(path@, e));
                self.errors.push(line);
                assert(texts(self.errors@) =~= texts(old(self).errors@).push(error_line(path@, e)));
                false
            },
        }
    }
}

/// Offers the activity of one file to the store. `decoded` holds the
/// messages of the file, or nothing where the file could not be read or
/// decoded. A path that names no workout recording is refused whatever was
/// decoded. The store changes only where an identity is returned.
pub fn import_file(store: &mut Store, path: &String, decoded: &Option<Vec<Message>>) -> (outcome:
    Result<i64, ImportError>)
    requires
        old(store).wf(),
    ensures
        final(store).wf(),
        outcome == import_outcome(
            old(store)@,
            path@,
            match decoded {
                Some(data) => Some(data@),
                None => None,
            },
        ),
        match outcome {
            Ok(_) => insert_outcome(
                old(store)@,
                assembled(decoded->Some_0@, Malformed::Skip, Sampling::Full)->Ok_0.0,
            ) == Ok::<Seq<SessionView>, StoreError>(final(store)@),
            Err(_) => final(store)@ == old(store)@,
        },
{
    match decoded {
        None => {
            if crate::parser::is_fit_file(path) {
                Err(ImportError::Unreadable)
            } else {
                Err(ImportError::Parse(ParseError::NotFitFile))
            }
        },
        Some(data) => {
            let session = match init(path, data) {
                Ok(s) => s,
                Err(e) => {
                    return Err(ImportError::Parse(e));
                },
            };
            match insert_session(store, session) {
                Ok(id) => Ok(id),
                Err(e) => Err(ImportError::Store(e)),
            }
        },
    }
}

/// What an import comes to once its rows were to be written to disk: an
/// accepted activity whose rows did not get there is not imported, for want
/// of storage.
pub open spec fn settled(outcome: Result<i64, ImportError>, written: bool) -> Result<
    i64,
    ImportError,
> {
    match outcome {
        Ok(id) => if written {
            Ok(id)
        } else {
            Err(ImportError::Store(StoreError::StorageUnavailable))
        },
        Err(e) => Err(e),
    }
}

/// Settles the import of one file after the attempt to write its rows.
/// `outcome` is what [`import_file`] gave on this store, and `written` tells
/// whether the rows of an accepted activity reached the disk. Where they did
/// not, the acceptance is undone: the store gives up the activity it took
/// last, so that it holds what the disk holds.
pub fn settle_write(store: &mut Store, outcome: Result<i64, ImportError>, written: bool) -> (after:
    Result<i64, ImportError>)
    requires
        old(store).wf(),
    ensures
        final(store).wf(),
        after == settled(outcome, written),
        final(store)@ == if outcome is Ok && !written {
            without_last(old(store)@)
        } else {
            old(store)@
        },
{
    match outcome {
        Ok(id) => {
            if written {
                Ok(id)
            } else {
                let _ = discard_last(store);
                Err(ImportError::Store(StoreError::StorageUnavailable))
            }
        },
        Err(e) => Err(e),
    }
}

} // verus!
