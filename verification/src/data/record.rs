//! The record validator: data rows checked against a schema.

use crate::data::schema::DataProjectSchema;
use crate::text::{split, split_fields, texts};
use vstd::prelude::*;

verus! {

/// Why a data row is not a record of a schema.
#[derive(Debug, Clone, Copy, PartialEq, Eq, Structural)]
pub enum RecordError {
    /// The row has `found` fields where the schema has `expected` columns.
    ArityMismatch { expected: usize, found: usize },
}

/// The verdict on a row of `found` fields under a schema of `expected`
/// columns: a row fits exactly when the two numbers are equal.
pub open spec fn arity_error(expected: usize, found: usize) -> Option<RecordError> {
    if found == expected {
        None
    } else {
        Some(RecordError::ArityMismatch { expected, found })
    }
}

/// One validated data row. Field `i` belongs to the column at position `i`
/// of the schema that the row was validated against. A record keeps no link
/// to that schema.
#[derive(Debug)]
pub struct DataRecord {
    elements: Vec<String>,
}

impl View for DataRecord {
    type V = Seq<Seq<char>>;

    /// The fields, in column order.
    closed spec fn view(&self) -> Seq<Seq<char>> {
        texts(self.elements@)
    }
}

impl DataRecord {
    /// Compares the number of fields with the number of columns of `schema`.
    /// What the fields hold is not looked at.
    pub fn check_against_schema(elements: &Vec<String>, schema: &DataProjectSchema) -> (error:
        Option<RecordError>)
        ensures
            error == arity_error(schema.column_count(), elements.len()),
    {
        let expected = schema.num_cols();
        if elements.len() != expected {
            return Some(RecordError::ArityMismatch { expected, found: elements.len() });
        }
        None
    }

    /// Validates an already split row against `schema`. A row with as many
    /// fields as the schema has columns becomes a record that holds exactly
    /// these fields, in the same order; any other row is rejected, and
    /// nothing is padded or cut.
    pub fn from_fields(elements: Vec<String>, schema: &DataProjectSchema) -> (res: Result<
        DataRecord,
        RecordError,
    >)
        ensures
            res is Ok <==> elements@.len() == schema.column_count(),
            match res {
                Ok(record) => record@ == texts(elements@),
                Err(error) => error == (RecordError::ArityMismatch {
                    expected: schema.column_count(),
                    found: elements.len(),
                }),
            },
    {
        match Self::check_against_schema(&elements, schema) {
            None => Ok(DataRecord { elements }),
            Some(error) => Err(error),
        }
    }

    /// Splits `record_str` at its commas and validates the fields against
    /// `schema`. The fields are taken as they are: nothing is trimmed.
    pub fn new(record_str: &String, schema: &DataProjectSchema) -> (res: Result<
        DataRecord,
        RecordError,
    >)
        ensures
            res is Ok <==> split_fields(record_str@).len() == schema.column_count(),
            match res {
                Ok(record) => record@ == split_fields(record_str@),
                Err(error) => {
                    &&& error matches RecordError::ArityMismatch { expected, found }
                    &&& expected == schema.column_count()
                    &&& found == split_fields(record_str@).len()
                },
            },
    {
        let elements = split(record_str.as_str());
        Self::from_fields(elements, schema)
    }

    /// The fields, in column order.
    pub fn elements(&self) -> (elements: &Vec<String>)
        ensures
            texts(elements@) == self@,
    {
        &self.elements
    }
}

} // verus!
