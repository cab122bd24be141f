//! A data project: one source file, its format tag and its inferred schema.

use crate::data::format::FileFormat;
use crate::data::record::{DataRecord, RecordError};
use crate::data::schema::{
    error_views, header_errors, valid_headers, DataProjectSchema, HeaderError, HeaderErrorView,
};
use crate::text::{split_fields, texts};
use vstd::prelude::*;

verus! {

/// Why a project could not be set up or loaded.
#[derive(Debug, PartialEq, Eq)]
pub enum ProjectError {
    /// No format is known by the tag `extension`.
    UnsupportedFormat { extension: String },
    /// The header row gives no schema; `errors` lists every bad header.
    InvalidHeaders { errors: Vec<HeaderError> },
    /// The project was loaded before.
    AlreadyLoaded,
    /// The data row at position `row`, counted from zero without the header
    /// line, does not fit the schema.
    InvalidRecord { row: usize, error: RecordError },
}

/// A [`ProjectError`] as a mathematical value.
pub enum ProjectErrorView {
    UnsupportedFormat { extension: Seq<char> },
    InvalidHeaders { errors: Seq<HeaderErrorView> },
    AlreadyLoaded,
    InvalidRecord { row: int, error: RecordError },
}

impl View for ProjectError {
    type V = ProjectErrorView;

    open spec fn view(&self) -> ProjectErrorView {
        match *self {
            ProjectError::UnsupportedFormat { extension } => ProjectErrorView::UnsupportedFormat {
                extension: extension@,
            },
            ProjectError::InvalidHeaders { errors } => ProjectErrorView::InvalidHeaders {
                errors: error_views(errors@),
            },
            ProjectError::AlreadyLoaded => ProjectErrorView::AlreadyLoaded,
            ProjectError::InvalidRecord { row, error } => ProjectErrorView::InvalidRecord {
                row: row as int,
                error,
            },
        }
    }
}

/// One source file that is being worked on: where it lies, which format its
/// extension selects, and the schema that its header row gave.
pub struct DataProject {
    file_path: String,
    loaded: bool,
    extension: String,
    records: Vec<()>,
    schema: DataProjectSchema,
}

/// A [`DataProject`] as a mathematical value.
pub struct DataProjectView {
    pub file_path: Seq<char>,
    pub loaded: bool,
    pub extension: Seq<char>,
    pub records: Seq<()>,
    pub schema: DataProjectSchema,
}

impl View for DataProject {
    type V = DataProjectView;

    closed spec fn view(&self) -> DataProjectView {
        DataProjectView {
            file_path: self.file_path@,
            loaded: self.loaded,
            extension: self.extension@,
            records: self.records@,
            schema: self.schema,
        }
    }
}

/// The views of a sequence of records, in order.
pub open spec fn record_views(records: Seq<DataRecord>) -> Seq<Seq<Seq<char>>> {
    records.map_values(|r: DataRecord| r@)
}

/// Every row cut at its commas.
pub open spec fn split_rows(rows: Seq<Seq<char>>) -> Seq<Seq<Seq<char>>> {
    rows.map_values(|row: Seq<char>| split_fields(row))
}

/// What validating `rows` one after the other against `count` columns gives:
/// all of them as records when each has `count` fields, and otherwise the
/// first row that has not.
pub open spec fn is_validation_of(
    res: Result<Vec<DataRecord>, ProjectError>,
    rows: Seq<Seq<Seq<char>>>,
    count: usize,
) -> bool {
    match res {
        Ok(records) => {
            &&& record_views(records@) == rows
            &&& forall|i: int| 0 <= i < rows.len() ==> (#[trigger] rows[i]).len() == count
        },
        Err(e) => {
            &&& e matches ProjectError::InvalidRecord { row, error }
            &&& 0 <= row < rows.len()
            &&& rows[row as int].len() != count
            &&& forall|i: int| 0 <= i < row ==> (#[trigger] rows[i]).len() == count
            &&& error matches RecordError::ArityMismatch { expected, found }
            &&& expected == count
            &&& found == rows[row as int].len()
        },
    }
}

impl DataProject {
    /// Builds the schema of a source from its first line, cut as the format
    /// that `extension` selects prescribes. An unknown extension is rejected
    /// whatever the line holds.
    pub fn get_schema_by_file_type(header_line: &str, extension: &str) -> (res: Result<
        DataProjectSchema,
        ProjectError,
    >)
        ensures
            match FileFormat::of_tag(extension@) {
                None => res matches Err(e) && e@ == (ProjectErrorView::UnsupportedFormat {
                    extension: extension@,
                }),
                Some(format) => match res {
                    Ok(schema) => {
                        &&& valid_headers(format.fields(header_line@))
                        &&& schema.is_built_from(format.fields(header_line@))
                    },
                    Err(e) => {
                        &&& !valid_headers(format.fields(header_line@))
                        &&& e@ == (ProjectErrorView::InvalidHeaders {
                            errors: header_errors(format.fields(header_line@)),
                        })
                    },
                },
            },
    {
        match FileFormat::from_extension(extension) {
            Some(format) => {
                let headers = format.split_line(header_line);
                match DataProjectSchema::new(headers) {
                    Ok(schema) => Ok(schema),
                    Err(errors) => Err(ProjectError::InvalidHeaders { errors }),
                }
            },
            None => Err(ProjectError::UnsupportedFormat { extension: extension.to_owned() }),
        }
    }

    /// Sets up a project for a source whose schema is not known beforehand.
    ///
    /// `fp` is the path of the source, `extension` its format tag and
    /// `header_line` its first line. The schema is inferred from the header
    /// line and kept in the project; no data is loaded. There is no project
    /// when the extension selects no format or the header row is not valid.
    pub fn new_infer_schema(fp: &str, extension: &str, header_line: &str) -> (res: Option<
        DataProject,
    >)
        ensures
            res is Some <==> (FileFormat::of_tag(extension@) matches Some(format) && valid_headers(
                format.fields(header_line@),
            )),
            res matches Some(project) ==> {
                &&& project@.file_path == fp@
                &&& !project@.loaded
                &&& project@.extension == extension@
                &&& project@.records.len() == 0
                &&& FileFormat::of_tag(extension@) matches Some(format)
                &&& project@.schema.is_built_from(format.fields(header_line@))
            },
    {
        match Self::get_schema_by_file_type(header_line, extension) {
            Ok(schema) => Some(
                DataProject {
                    file_path: fp.to_owned(),
                    loaded: false,
                    extension: extension.to_owned(),
                    records: Vec::new(),
                    schema,
                },
            ),
            Err(_) => None,
        }
    }

    /// Picks the data rows out of the lines of a source, as the format that
    /// `extension` selects prescribes.
    pub fn read_data_by_file_type(lines: Vec<String>, extension: &str) -> (res: Result<
        Vec<String>,
        ProjectError,
    >)
        ensures
            match FileFormat::of_tag(extension@) {
                None => res matches Err(e) && e@ == (ProjectErrorView::UnsupportedFormat {
                    extension: extension@,
                }),
                Some(format) => res matches Ok(rows) && texts(rows@) == format.data_rows(
                    texts(lines@),
                ),
            },
    {
        match FileFormat::from_extension(extension) {
            Some(FileFormat::Csv) => Ok(Self::read_data_csv(lines)),
            None => Err(ProjectError::UnsupportedFormat { extension: extension.to_owned() }),
        }
    }

    /// The data rows of comma-delimited text: the header line is dropped, the
    /// other lines stay as they are and in their order.
    pub fn read_data_csv(lines: Vec<String>) -> (rows: Vec<String>)
        ensures
            texts(rows@) == FileFormat::Csv.data_rows(texts(lines@)),
    {
        let mut rows = lines;
        if rows.len() > 0 {
            rows.remove(0);
        }
        rows
    }

    /// Validates the data of the source against the schema of the project.
    ///
    /// `lines` are all lines of the source, the header line included. A
    /// project that was loaded before refuses, and so does one whose
    /// extension selects no format. Otherwise each data row is cut at its
    /// commas and validated in file order: the first row that does not fit
    /// the schema ends the load with its error, and when every row fits, the
    /// records come back in file order. The project itself is left as it was.
    #[verifier::loop_isolation(false)]
    pub fn load(&mut self, lines: Vec<String>) -> (res: Result<Vec<DataRecord>, ProjectError>)
        ensures
            *final(self) == *old(self),
            if old(self)@.loaded {
                res matches Err(e) && e@ == ProjectErrorView::AlreadyLoaded
            } else {
                match FileFormat::of_tag(old(self)@.extension) {
                    None => res matches Err(e) && e@ == (ProjectErrorView::UnsupportedFormat {
                        extension: old(self)@.extension,
                    }),
                    Some(format) => is_validation_of(
                        res,
                        split_rows(format.data_rows(texts(lines@))),
                        old(self)@.schema.column_count(),
                    ),
                }
            },
    {
        if self.loaded {
            return Err(ProjectError::AlreadyLoaded);
        }
        let data = match Self::read_data_by_file_type(lines, self.extension.as_str()) {
            Err(e) => {
                return Err(e);
            },
            Ok(v) => v,
        };
        let ghost rows = split_rows(texts(data@));
        let mut records: Vec<DataRecord> = Vec::new();
        let mut i: usize = 0;
        while i < data.len()
            invariant
                0 <= i <= data.len(),
                rows == split_rows(texts(data@)),
                record_views(records@) == rows.take(i as int),
                forall|j: int|
                    0 <= j < i ==> (#[trigger] rows[j]).len() == self.schema.column_count(),
            decreases data.len() - i,
        {
            match DataRecord::new(&data[i], &self.schema) {
                Ok(record) => {
                    records.push(record);
                },
                Err(error) => {
                    return Err(ProjectError::InvalidRecord { row: i, error });
                },
            }
            i += 1;
        }
        assert(rows.take(i as int) =~= rows);
        Ok(records)
    }

    /// The path of the source.
    pub fn file_path(&self) -> (path: &String)
        ensures
            path@ == self@.file_path,
    {
        &self.file_path
    }

    /// Whether the project counts as loaded.
    pub fn loaded(&self) -> (loaded: bool)
        ensures
            loaded == self@.loaded,
    {
        self.loaded
    }

    /// The format tag of the source.
    pub fn extension(&self) -> (extension: &String)
        ensures
            extension@ == self@.extension,
    {
        &self.extension
    }

    /// The records that the project holds.
    pub fn records(&self) -> (records: &Vec<()>)
        ensures
            records@ == self@.records,
    {
        &self.records
    }

    /// The schema that the header row of the source gave.
    pub fn schema(&self) -> (schema: &DataProjectSchema)
        ensures
            *schema == self@.schema,
    {
        &self.schema
    }
}

} // verus!
