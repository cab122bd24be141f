//! Header rows taken at face value, and projects without a schema.
//!
//! Nothing is validated here: a header is a column name exactly as it is
//! written, and when a name stands at several positions the last one counts.
//! For trimmed, validated schemas see [`crate::data`].

use crate::text::texts;
use vstd::hash_map::StringHashMap;
use vstd::prelude::*;

verus! {

/// `columns` sends every header of the row to the last position at which it
/// stands, and holds nothing else.
pub open spec fn is_last_position_index(
    columns: Map<Seq<char>, usize>,
    headers: Seq<Seq<char>>,
) -> bool {
    &&& forall|k: Seq<char>| #[trigger] columns.contains_key(k) <==> headers.contains(k)
    &&& forall|k: Seq<char>| #[trigger]
        columns.contains_key(k) ==> {
            &&& 0 <= columns[k] < headers.len()
            &&& headers[columns[k] as int] == k
            &&& forall|j: int| columns[k] < j < headers.len() ==> headers[j] != k
        }
}

/// An index from header text to column position.
pub struct DataProjectSchema {
    /// Header to position.
    cols: StringHashMap<usize>,
    /// Number of distinct headers.
    num_cols: usize,
}

impl DataProjectSchema {
    /// The mapping from header to position.
    pub closed spec fn columns(&self) -> Map<Seq<char>, usize> {
        self.cols@
    }

    /// The number of entries of the mapping.
    pub closed spec fn column_count(&self) -> usize {
        self.num_cols
    }

    /// Indexes a header row as it stands. Headers are neither trimmed nor
    /// checked; of several equal headers the last one gives the position, so
    /// the index has one entry for each distinct header.
    pub fn new(cols: Vec<String>) -> (schema: DataProjectSchema)
        ensures
            is_last_position_index(schema.columns(), texts(cols@)),
            schema.columns().dom().finite(),
            schema.column_count() == schema.columns().len(),
    {
        let ghost headers = texts(cols@);
        let mut map: StringHashMap<usize> = StringHashMap::new();
        let mut i: usize = 0;
        while i < cols.len()
            invariant
                0 <= i <= cols.len(),
                headers == texts(cols@),
                map@.dom().finite(),
                forall|k: Seq<char>| #[trigger]
                    map@.contains_key(k) <==> exists|j: int| 0 <= j < i && headers[j] == k,
                forall|k: Seq<char>| #[trigger]
                    map@.contains_key(k) ==> {
                        &&& 0 <= map@[k] < i
                        &&& headers[map@[k] as int] == k
                        &&& forall|j: int| map@[k] < j < i ==> headers[j] != k
                    },
            decreases cols.len() - i,
        {
            let header = cols[i].clone();
            assert(header@ == headers[i as int]);
            map.insert(header, i);
            i += 1;
        }
        let num_cols = map.len();
        proof {
            assert forall|k: Seq<char>| #[trigger] map@.contains_key(k) <==> headers.contains(
                k,
            ) by {
                if headers.contains(k) {
                    let j = choose|j: int| 0 <= j < headers.len() && headers[j] == k;
                    assert(headers[j] == k);
                }
            }
        }
        DataProjectSchema { cols: map, num_cols }
    }

    /// The number of distinct headers.
    pub fn num_cols(&self) -> (n: usize)
        ensures
            n == self.column_count(),
    {
        self.num_cols
    }

    /// The position that `name` is indexed at, if it is a header.
    pub fn get(&self, name: &str) -> (position: Option<usize>)
        ensures
            position == (if self.columns().contains_key(name@) {
                Some(self.columns()[name@])
            } else {
                None
            }),
    {
        match self.cols.get(name) {
            Some(position) => Some(*position),
            None => None,
        }
    }
}

/// One source file that is being worked on, before anything is known of
/// what it holds.
pub struct DataProject {
    file_path: String,
    loaded: bool,
    raw_string: String,
    records: Vec<()>,
}

/// A [`DataProject`] as a mathematical value.
pub struct DataProjectView {
    pub file_path: Seq<char>,
    pub loaded: bool,
    pub raw_string: Seq<char>,
    pub records: Seq<()>,
}

impl View for DataProject {
    type V = DataProjectView;

    closed spec fn view(&self) -> DataProjectView {
        DataProjectView {
            file_path: self.file_path@,
            loaded: self.loaded,
            raw_string: self.raw_string@,
            records: self.records@,
        }
    }
}

impl DataProject {
    /// Sets up a project for the source at `fp` without reading it. `exists`
    /// says whether there is a file at that path: without one there is no
    /// project. A new project is not loaded and holds no text and no records.
    pub fn new_without_schema(fp: &str, exists: bool) -> (res: Option<DataProject>)
        ensures
            res is Some <==> exists,
            res matches Some(project) ==> {
                &&& project@.file_path == fp@
                &&& !project@.loaded
                &&& project@.raw_string.len() == 0
                &&& project@.records.len() == 0
            },
    {
        if exists == false {
            return None;
        }
        Some(
            DataProject {
                file_path: fp.to_owned(),
                loaded: false,
                raw_string: String::new(),
                records: Vec::new(),
            },
        )
    }

    /// The path of the source.
    pub fn file_path(&self) -> (path: &String)
        ensures
            path@ == self@.file_path,
    {
        &self.file_path
    }

    /// Whether the project counts as loaded.
    pub fn loaded(&self) -> (loaded: bool)
        ensures
            loaded == self@.loaded,
    {
        self.loaded
    }
}

} // verus!
