//! The schema builder: from a header row to a validated column mapping.

use crate::text::{
    is_whitespace, lemma_trimmed_is_idempotent, lemma_trimmed_keeps_inner_text, texts, trim,
    trimmed,
};
use vstd::hash_map::StringHashMap;
use vstd::prelude::*;

verus! {

/// What is wrong with one header of a header row.
#[derive(Debug, PartialEq, Eq)]
pub enum HeaderError {
    /// The header at `column` is empty once it is trimmed.
    EmptyHeader { column: usize },
    /// The header at `column` trims to `name`, which an earlier header
    /// already claimed.
    DuplicateHeader { name: String, column: usize },
}

/// A [`HeaderError`] as a mathematical value.
pub enum HeaderErrorView {
    EmptyHeader { column: int },
    DuplicateHeader { name: Seq<char>, column: int },
}

impl View for HeaderError {
    type V = HeaderErrorView;

    open spec fn view(&self) -> HeaderErrorView {
        match *self {
            HeaderError::EmptyHeader { column } => HeaderErrorView::EmptyHeader {
                column: column as int,
            },
            HeaderError::DuplicateHeader { name, column } => HeaderErrorView::DuplicateHeader {
                name: name@,
                column: column as int,
            },
        }
    }
}

/// The views of a sequence of header errors, in order.
pub open spec fn error_views(errors: Seq<HeaderError>) -> Seq<HeaderErrorView> {
    errors.map_values(|e: HeaderError| e@)
}

/// The key that the header at position `i` stands for: the header, trimmed.
pub open spec fn key_at(headers: Seq<Seq<char>>, i: int) -> Seq<char> {
    trimmed(headers[i])
}

/// The keys of all headers, in header order.
pub open spec fn keys(headers: Seq<Seq<char>>) -> Seq<Seq<char>> {
    headers.map_values(|h: Seq<char>| trimmed(h))
}

/// The header at `i` names no key.
pub open spec fn is_empty_header(headers: Seq<Seq<char>>, i: int) -> bool {
    key_at(headers, i).len() == 0
}

/// The header at `i` names a key that an earlier header names too.
pub open spec fn is_duplicate_header(headers: Seq<Seq<char>>, i: int) -> bool {
    &&& key_at(headers, i).len() > 0
    &&& exists|j: int| 0 <= j < i && key_at(headers, j) == key_at(headers, i)
}

/// The error that the header at `i` gives rise to, if any. An empty header
/// is reported as empty, never as a duplicate of another empty one.
pub open spec fn header_error_at(headers: Seq<Seq<char>>, i: int) -> Option<HeaderErrorView> {
    if is_empty_header(headers, i) {
        Some(HeaderErrorView::EmptyHeader { column: i })
    } else if is_duplicate_header(headers, i) {
        Some(HeaderErrorView::DuplicateHeader { name: key_at(headers, i), column: i })
    } else {
        None
    }
}

/// The errors of the first `n` headers, in header order.
pub open spec fn header_errors_before(headers: Seq<Seq<char>>, n: nat) -> Seq<HeaderErrorView>
    decreases n,
{
    if n == 0 {
        Seq::empty()
    } else {
        let earlier = header_errors_before(headers, (n - 1) as nat);
        match header_error_at(headers, n - 1) {
            Some(e) => earlier.push(e),
            None => earlier,
        }
    }
}

/// Every error of a header row, in header order.
pub open spec fn header_errors(headers: Seq<Seq<char>>) -> Seq<HeaderErrorView> {
    header_errors_before(headers, headers.len())
}

/// A header row is valid when every header names a key and no two headers
/// name the same one.
pub open spec fn valid_headers(headers: Seq<Seq<char>>) -> bool {
    &&& forall|i: int| 0 <= i < headers.len() ==> key_at(headers, i).len() > 0
    &&& forall|i: int, j: int|
        0 <= i < j < headers.len() ==> key_at(headers, i) != key_at(headers, j)
}

/// What ties the three parts of a schema together: `count` names, each of
/// them trimmed and none of them empty, and a mapping that sends each name to
/// its position and holds nothing else. No name can then occur twice.
pub open spec fn is_schema(
    names: Seq<Seq<char>>,
    columns: Map<Seq<char>, usize>,
    count: nat,
) -> bool {
    &&& names.len() == count
    &&& columns.dom().finite()
    &&& columns.dom().len() == count
    &&& forall|i: int| 0 <= i < names.len() ==> (#[trigger] names[i]).len() > 0
    &&& forall|i: int| 0 <= i < names.len() ==> trimmed(#[trigger] names[i]) == names[i]
    &&& forall|i: int|
        0 <= i < names.len() ==> columns.contains_key(#[trigger] names[i]) && columns[names[i]]
            == i
    &&& forall|k: Seq<char>| #[trigger] columns.contains_key(k) ==> names.contains(k)
}

/// The column layout of a data source: an ordered list of unique, non-empty
/// column names together with the mapping from each name to its zero-based
/// position. A schema is built once from a header row and never changes.
pub struct DataProjectSchema {
    /// Column name to position.
    cols: StringHashMap<usize>,
    /// Position to column name.
    names: Vec<String>,
    /// Number of columns.
    num_cols: usize,
}

impl View for DataProjectSchema {
    type V = Seq<Seq<char>>;

    /// The column names, in column order.
    closed spec fn view(&self) -> Seq<Seq<char>> {
        texts(self.names@)
    }
}

impl DataProjectSchema {
    /// The mapping from column name to position.
    pub closed spec fn columns(&self) -> Map<Seq<char>, usize> {
        self.cols@
    }

    /// The number of columns.
    pub closed spec fn column_count(&self) -> usize {
        self.num_cols
    }

    /// The invariant of every schema.
    #[verifier::type_invariant]
    pub open spec fn wf(&self) -> bool {
        is_schema(self@, self.columns(), self.column_count() as nat)
    }

    /// What holds of the schema that a valid header row gives: one column
    /// for every header, named by the header's key, and the key of header
    /// `i` mapped to `i`.
    pub open spec fn is_built_from(&self, headers: Seq<Seq<char>>) -> bool {
        &&& self.wf()
        &&& self@ == keys(headers)
        &&& self.column_count() == headers.len()
        &&& forall|i: int|
            0 <= i < headers.len() ==> {
                &&& self.columns().contains_key(#[trigger] key_at(headers, i))
                &&& self.columns()[key_at(headers, i)] == i
            }
    }

    /// Builds the schema of a header row.
    ///
    /// Each header is trimmed to give its key. The row is accepted when every
    /// key is non-empty and no key occurs twice; the schema then maps the key
    /// of header `i` to `i`. Otherwise every offending header is reported, in
    /// header order: an empty key as `EmptyHeader`, a key that an earlier
    /// header already gave as `DuplicateHeader`.
    pub fn new(cols: Vec<String>) -> (res: Result<DataProjectSchema, Vec<HeaderError>>)
        ensures
            res is Ok <==> valid_headers(texts(cols@)),
            match res {
                Ok(schema) => schema.is_built_from(texts(cols@)),
                Err(errors) => {
                    &&& errors@.len() > 0
                    &&& error_views(errors@) == header_errors(texts(cols@))
                },
            },
    {
        let ghost headers = texts(cols@);
        let mut map: StringHashMap<usize> = StringHashMap::new();
        let mut names: Vec<String> = Vec::new();
        let mut errors: Vec<HeaderError> = Vec::new();
        let mut i: usize = 0;
        while i < cols.len()
            invariant
                0 <= i <= cols.len(),
                headers == texts(cols@),
                error_views(errors@) == header_errors_before(headers, i as nat),
                map@.dom().finite(),
                forall|k: Seq<char>| #[trigger]
                    map@.contains_key(k) <==> (k.len() > 0 && exists|j: int|
                        0 <= j < i && key_at(headers, j) == k),
                errors@.len() == 0 ==> {
                    &&& names@.len() == i
                    &&& map@.dom().len() == i
                    &&& forall|j: int|
                        0 <= j < i ==> {
                            &&& texts(names@)[j] == #[trigger] key_at(headers, j)
                            &&& key_at(headers, j).len() > 0
                            &&& map@[key_at(headers, j)] == j
                        }
                },
            decreases cols.len() - i,
        {
            let key = trim(cols[i].as_str());
            if key.is_empty() {
                errors.push(HeaderError::EmptyHeader { column: i });
            } else if map.contains_key(key) {
                errors.push(HeaderError::DuplicateHeader { name: key.to_owned(), column: i });
            } else {
                map.insert(key.to_owned(), i);
                names.push(key.to_owned());
            }
            i += 1;
        }
        let num_cols = map.len();
        proof {
            lemma_no_errors_iff_valid(headers);
        }
        if errors.len() > 0 {
            Err(errors)
        } else {
            proof {
                // With no error, every header was accepted under its key.
                let accepted = texts(names@);
                assert forall|j: int| 0 <= j < accepted.len() implies {
                    &&& accepted[j] == key_at(headers, j)
                    &&& accepted[j].len() > 0
                    &&& map@.contains_key(accepted[j])
                    &&& map@[accepted[j]] == j
                } by {
                    assert(accepted[j] == key_at(headers, j));
                }
                assert forall|j: int| 0 <= j < accepted.len() implies trimmed(
                    #[trigger] accepted[j],
                ) == accepted[j] by {
                    lemma_trimmed_is_idempotent(headers[j]);
                }
                assert(accepted =~= keys(headers));
                assert forall|k: Seq<char>| #[trigger]
                    map@.contains_key(k) implies accepted.contains(k) by {
                    let j = choose|j: int| 0 <= j < i && key_at(headers, j) == k;
                    assert(accepted[j] == k);
                }
            }
            Ok(DataProjectSchema { cols: map, names, num_cols })
        }
    }

    /// The number of columns.
    pub fn num_cols(&self) -> (n: usize)
        ensures
            n == self.column_count(),
            n == self@.len(),
    {
        proof {
            use_type_invariant(self);
        }
        self.num_cols
    }

    /// The position of the column called `name`, if there is one. Names are
    /// compared as they are: case matters, and nothing is trimmed.
    pub fn get(&self, name: &str) -> (position: Option<usize>)
        ensures
            position == (if self.columns().contains_key(name@) {
                Some(self.columns()[name@])
            } else {
                None
            }),
    {
        match self.cols.get(name) {
            Some(position) => Some(*position),
            None => None,
        }
    }

    /// The column names, in column order.
    pub fn names(&self) -> (names: &Vec<String>)
        ensures
            texts(names@) == self@,
    {
        &self.names
    }
}

impl Clone for DataProjectSchema {
    /// A schema with the same names, the same mapping and the same number of
    /// columns.
    fn clone(&self) -> (copy: DataProjectSchema)
        ensures
            copy.wf(),
            copy@ == self@,
            copy.columns() == self.columns(),
            copy.column_count() == self.column_count(),
    {
        proof {
            use_type_invariant(self);
        }
        let mut cols: StringHashMap<usize> = StringHashMap::new();
        let mut names: Vec<String> = Vec::new();
        let mut i: usize = 0;
        while i < self.names.len()
            invariant
                self.wf(),
                0 <= i <= self.names.len(),
                texts(names@) == self@.take(i as int),
                forall|k: Seq<char>| #[trigger]
                    cols@.contains_key(k) <==> exists|j: int| 0 <= j < i && self@[j] == k,
                forall|j: int| 0 <= j < i ==> cols@[#[trigger] self@[j]] == j,
            decreases self.names.len() - i,
        {
            let name = self.names[i].clone();
            assert(self@.take(i + 1) =~= self@.take(i as int).push(self@[i as int]));
            cols.insert(self.names[i].clone(), i);
            names.push(name);
            i += 1;
        }
        proof {
            assert(self@.take(i as int) =~= self@);
            assert forall|k: Seq<char>| self.cols@.contains_key(k) implies cols@.contains_key(
                k,
            ) by {
                let j = choose|j: int| 0 <= j < self@.len() && self@[j] == k;
                assert(self@[j] == k);
            }
            assert(cols@ =~= self.cols@);
        }
        DataProjectSchema { cols, names, num_cols: self.num_cols }
    }
}

/// The first `n` headers give no error exactly when none of them does.
proof fn lemma_errors_before_empty(headers: Seq<Seq<char>>, n: nat)
    ensures
        header_errors_before(headers, n).len() == 0 <==> forall|i: int|
            0 <= i < n ==> header_error_at(headers, i) is None,
    decreases n,
{
    if n > 0 {
        lemma_errors_before_empty(headers, (n - 1) as nat);
    }
}

/// A header row gives no error exactly when it is valid.
pub proof fn lemma_no_errors_iff_valid(headers: Seq<Seq<char>>)
    ensures
        header_errors(headers).len() == 0 <==> valid_headers(headers),
{
    lemma_errors_before_empty(headers, headers.len());
    if valid_headers(headers) {
        assert forall|i: int| 0 <= i < headers.len() implies header_error_at(headers, i)
            is None by {}
    }
    if forall|i: int| 0 <= i < headers.len() ==> header_error_at(headers, i) is None {
        assert forall|i: int| 0 <= i < headers.len() implies key_at(headers, i).len() > 0 by {
            assert(header_error_at(headers, i) is None);
        }
        assert forall|i: int, j: int| 0 <= i < j < headers.len() implies key_at(headers, i)
            != key_at(headers, j) by {
            assert(header_error_at(headers, j) is None);
        }
    }
}

/// How many of the positions below `n` satisfy `p`.
pub open spec fn count_below(n: nat, p: spec_fn(int) -> bool) -> nat
    decreases n,
{
    if n == 0 {
        0
    } else {
        count_below((n - 1) as nat, p) + if p(n - 1) {
            1nat
        } else {
            0nat
        }
    }
}

/// How many headers are empty once trimmed.
pub open spec fn empty_header_count(headers: Seq<Seq<char>>) -> nat {
    count_below(headers.len(), |i: int| is_empty_header(headers, i))
}

/// How many headers repeat the key of an earlier header. Every repeat counts,
/// the first occurrence of a key does not.
pub open spec fn duplicate_header_count(headers: Seq<Seq<char>>) -> nat {
    count_below(headers.len(), |i: int| is_duplicate_header(headers, i))
}

proof fn lemma_error_count_before(headers: Seq<Seq<char>>, n: nat)
    ensures
        header_errors_before(headers, n).len() == count_below(
            n,
            |i: int| is_empty_header(headers, i),
        ) + count_below(n, |i: int| is_duplicate_header(headers, i)),
    decreases n,
{
    if n > 0 {
        lemma_error_count_before(headers, (n - 1) as nat);
    }
}

/// A header row with `k` empty headers and `d` repeated keys gives exactly
/// `k + d` errors, and it is valid exactly when that number is zero.
pub proof fn lemma_error_count(headers: Seq<Seq<char>>)
    ensures
        header_errors(headers).len() == empty_header_count(headers) + duplicate_header_count(
            headers,
        ),
        valid_headers(headers) <==> empty_header_count(headers) + duplicate_header_count(headers)
            == 0,
{
    lemma_error_count_before(headers, headers.len());
    lemma_no_errors_iff_valid(headers);
}

/// A header is judged by its ends and by nothing else: one that neither
/// starts nor ends with whitespace is its own key, character for character,
/// and is an error only when an earlier header has the same key.
pub proof fn lemma_header_is_kept_verbatim(headers: Seq<Seq<char>>, i: int)
    requires
        0 <= i < headers.len(),
        headers[i].len() > 0,
        !is_whitespace(headers[i].first()),
        !is_whitespace(headers[i].last()),
    ensures
        key_at(headers, i) == headers[i],
        header_error_at(headers, i) is Some <==> exists|j: int|
            0 <= j < i && key_at(headers, j) == headers[i],
{
    lemma_trimmed_keeps_inner_text(headers[i]);
}

/// Building is repeatable: two schemas built from the same header row have
/// the same names, the same mapping and the same number of columns.
pub proof fn lemma_build_is_repeatable(
    headers: Seq<Seq<char>>,
    first: DataProjectSchema,
    second: DataProjectSchema,
)
    requires
        first.is_built_from(headers),
        second.is_built_from(headers),
    ensures
        first@ == second@,
        first.columns() == second.columns(),
        first.column_count() == second.column_count(),
{
    assert forall|k: Seq<char>| first.columns().contains_key(k) implies {
        &&& second.columns().contains_key(k)
        &&& second.columns()[k] == first.columns()[k]
    } by {
        lemma_key_position(headers, first, k);
    }
    assert forall|k: Seq<char>|
        second.columns().contains_key(k) implies first.columns().contains_key(k) by {
        lemma_key_position(headers, second, k);
    }
    assert(first.columns() =~= second.columns());
}

/// Every key of a schema is the key of one of the headers that it was built
/// from.
proof fn lemma_key_position(headers: Seq<Seq<char>>, schema: DataProjectSchema, k: Seq<char>)
    requires
        schema.is_built_from(headers),
        schema.columns().contains_key(k),
    ensures
        exists|i: int| 0 <= i < headers.len() && #[trigger] key_at(headers, i) == k,
{
    let i = choose|i: int| 0 <= i < schema@.len() && schema@[i] == k;
    assert(key_at(headers, i) == k);
}

} // verus!
