//! File formats: how the lines of a source are cut into rows and fields.
//!
//! A format is chosen by a tag, most often a file extension. The schema
//! builder and the record validator never see the tag; they are handed the
//! fields that the format cut out.

use crate::text::{same_text, split, split_fields, texts};
use vstd::prelude::*;

verus! {

/// A supported file format.
#[derive(Debug, Clone, Copy, PartialEq, Eq, Structural)]
pub enum FileFormat {
    /// Comma-delimited text: one row per line, the first line holds the
    /// headers, and fields are separated by commas.
    Csv,
}

impl FileFormat {
    /// The format that `tag` stands for, if any. Comma-delimited text goes by
    /// `csv` and `.csv`; tags are case-sensitive.
    pub open spec fn of_tag(tag: Seq<char>) -> Option<FileFormat> {
        if tag == "csv"@ || tag == ".csv"@ {
            Some(FileFormat::Csv)
        } else {
            None
        }
    }

    /// The fields of one line of a source in this format.
    pub open spec fn fields(self, line: Seq<char>) -> Seq<Seq<char>> {
        match self {
            FileFormat::Csv => split_fields(line),
        }
    }

    /// The data rows among the lines of a source in this format: for
    /// comma-delimited text, every line but the first.
    pub open spec fn data_rows(self, lines: Seq<Seq<char>>) -> Seq<Seq<char>> {
        match self {
            FileFormat::Csv => if lines.len() == 0 {
                lines
            } else {
                lines.skip(1)
            },
        }
    }

    /// Looks up the format that `extension` stands for.
    pub fn from_extension(extension: &str) -> (format: Option<FileFormat>)
        ensures
            format == Self::of_tag(extension@),
    {
        if same_text(extension, "csv") || same_text(extension, ".csv") {
            Some(FileFormat::Csv)
        } else {
            None
        }
    }

    /// Cuts one line into its fields.
    pub fn split_line(self, line: &str) -> (fields: Vec<String>)
        ensures
            texts(fields@) == self.fields(line@),
    {
        match self {
            FileFormat::Csv => split(line),
        }
    }
}

} // verus!
