//! Rows and query results. All rows of one result share one column schema
//! through a reference-counted handle; the well-formedness predicate below is
//! what every backend establishes before a result is handed out.

use std::sync::Arc;

use vstd::prelude::*;

use crate::dbc::value::Column;
use crate::dbc::value::ColumnModel;
use crate::dbc::value::Value;
use crate::dbc::value::ValueModel;

verus! {

/// One row of a result: an ordered sequence of cell values and a shared
/// reference to the column schema of the whole result.
#[derive(Debug)]
pub struct Row {
    values: Vec<Value>,
    columns: Arc<Vec<Column>>,
}

/// The mathematical model of a [`Row`].
pub struct RowModel {
    pub values: Seq<ValueModel>,
    pub columns: Seq<ColumnModel>,
}

impl RowModel {
    /// Every cell is matched by a column descriptor, one for one.
    pub open spec fn wf(self) -> bool {
        self.values.len() == self.columns.len()
    }
}

impl View for Row {
    type V = RowModel;

    closed spec fn view(&self) -> RowModel {
        RowModel { values: self.values.deep_view(), columns: self.columns.deep_view() }
    }
}

/// The index of the first column called `name`, if any.
pub open spec fn spec_find_column(columns: Seq<ColumnModel>, name: Seq<char>) -> Option<int>
    decreases columns.len(),
{
    if columns.len() == 0 {
        None
    } else if columns[0].name == name {
        Some(0)
    } else {
        match spec_find_column(columns.drop_first(), name) {
            Some(i) => Some(i + 1),
            None => None,
        }
    }
}

impl Row {
    /// A fresh row over the given cell values and the shared schema handle.
    pub fn new(values: Vec<Value>, columns: Arc<Vec<Column>>) -> (r: Row)
        ensures
            r@.values == values.deep_view(),
            r@.columns == columns.deep_view(),
    {
        Row { values, columns }
    }

    /// The cell at `index`, or `None` past the end of the row.
    pub fn get_value(&self, index: usize) -> (r: Option<&Value>)
        ensures
            r is Some <==> index < self@.values.len(),
            r matches Some(v) ==> v.deep_view() == self@.values[index as int],
    {
        if index < self.values.len() {
            Some(&self.values[index])
        } else {
            None
        }
    }

    /// The column descriptor at `index`, or `None` past the end of the schema.
    pub fn get_column(&self, index: usize) -> (r: Option<&Column>)
        ensures
            r is Some <==> index < self@.columns.len(),
            r matches Some(c) ==> c@ == self@.columns[index as int],
    {
        let columns: &Vec<Column> = &self.columns;
        if index < columns.len() {
            Some(&columns[index])
        } else {
            None
        }
    }

    /// The cell under the first column called `name`: `None` when no column
    /// has that name or the row is too short for the matching index.
    pub fn get_value_by_name(&self, name: &str) -> (r: Option<&Value>)
        ensures
            match spec_find_column(self@.columns, name@) {
                Some(i) => {
                    &&& (r is Some <==> i < self@.values.len())
                    &&& (r matches Some(v) ==> v.deep_view() == self@.values[i])
                },
                None => r is None,
            },
    {
        match self.position_of(name) {
            Some(index) => self.get_value(index),
            None => None,
        }
    }

    /// The first column descriptor called `name`, if any.
    pub fn get_column_by_name(&self, name: &str) -> (r: Option<&Column>)
        ensures
            match spec_find_column(self@.columns, name@) {
                Some(i) => r matches Some(c) && c@ == self@.columns[i],
                None => r is None,
            },
    {
        match self.position_of(name) {
            Some(index) => {
                let columns: &Vec<Column> = &self.columns;
                Some(&columns[index])
            },
            None => None,
        }
    }

    /// The cell values of this row, in column order.
    pub(crate) fn values_ref(&self) -> (r: &Vec<Value>)
        ensures
            r.deep_view() == self@.values,
    {
        &self.values
    }

    /// The shared column schema of this row.
    pub(crate) fn columns_ref(&self) -> (r: &Vec<Column>)
        ensures
            r.deep_view() == self@.columns,
    {
        &self.columns
    }

    /// The index of the first column called `name`.
    fn position_of(&self, name: &str) -> (r: Option<usize>)
        ensures
            match spec_find_column(self@.columns, name@) {
                Some(i) => r matches Some(j) && j == i && i < self@.columns.len(),
                None => r is None,
            },
    {
        let columns: &Vec<Column> = &self.columns;
        let n = columns.len();
        let mut i: usize = 0;
        proof {
            assert(self@.columns.skip(0) =~= self@.columns);
        }
        while i < n
            invariant
                i <= n,
                n == self@.columns.len(),
                columns.deep_view() == self@.columns,
                spec_find_column(self@.columns, name@) == match spec_find_column(
                    self@.columns.skip(i as int),
                    name@,
                ) {
                    Some(k) => Some(k + i),
                    None => None::<int>,
                },
            decreases n - i,
        {
            proof {
                assert(self@.columns.skip(i as int).drop_first() =~= self@.columns.skip(
                    i + 1,
                ));
                assert(self@.columns.skip(i as int)[0] == self@.columns[i as int]);
            }
            if str_eq(columns[i].name.as_str(), name) {
                return Some(i);
            }
            i += 1;
        }
        proof {
            assert(self@.columns.skip(n as int).len() == 0);
        }
        None
    }
}

/// Relies on std's Arc::clone: another handle to the same shared value.
#[verifier::external_body]
pub(crate) fn arc_clone<T>(a: &Arc<T>) -> (r: Arc<T>)
    ensures
        r == *a,
{
    Arc::clone(a)
}

/// Character-for-character string equality.
pub(crate) fn str_eq(a: &str, b: &str) -> (r: bool)
    ensures
        r == (a@ == b@),
{
    let an = a.unicode_len();
    let bn = b.unicode_len();
    if an != bn {
        return false;
    }
    let mut i: usize = 0;
    while i < an
        invariant
            an == a@.len(),
            an == b@.len(),
            i <= an,
            forall|j: int| 0 <= j < i ==> a@[j] == b@[j],
        decreases an - i,
    {
        if a.get_char(i) != b.get_char(i) {
            return false;
        }
        i += 1;
    }
    proof {
        assert(a@ =~= b@);
    }
    true
}

/// A normalized query result: the rows a statement produced, and the number
/// of rows a mutating statement affected.
#[derive(Debug)]
pub struct QueryResult {
    pub rows: Vec<Row>,
    pub affected_row_count: usize,
}

/// The mathematical model of a [`QueryResult`].
pub struct QueryResultModel {
    pub rows: Seq<RowModel>,
    pub affected_row_count: nat,
}

impl QueryResultModel {
    /// Every row is well formed and all rows carry the same column schema:
    /// the schema-sharing invariant of one result.
    pub open spec fn wf(self) -> bool {
        &&& forall|i: int| 0 <= i < self.rows.len() ==> (#[trigger] self.rows[i]).wf()
        &&& forall|i: int, j: int|
            0 <= i < self.rows.len() && 0 <= j < self.rows.len() ==> (#[trigger] self.rows[i]).columns
                == (#[trigger] self.rows[j]).columns
    }
}

impl View for QueryResult {
    type V = QueryResultModel;

    open spec fn view(&self) -> QueryResultModel {
        QueryResultModel {
            rows: self.rows.deep_view(),
            affected_row_count: self.affected_row_count as nat,
        }
    }
}

impl DeepView for Row {
    type V = RowModel;

    open spec fn deep_view(&self) -> RowModel {
        self.view()
    }
}

/// Schema-sharing law: in a well-formed result every row's cell count equals
/// every other row's cell count, and both equal the schema's column count.
pub proof fn lemma_schema_sharing(q: QueryResultModel, i: int, j: int)
    requires
        q.wf(),
        0 <= i < q.rows.len(),
        0 <= j < q.rows.len(),
    ensures
        q.rows[i].values.len() == q.rows[i].columns.len(),
        q.rows[i].columns == q.rows[j].columns,
        q.rows[i].values.len() == q.rows[j].values.len(),
{
    assert(q.rows[i].wf());
    assert(q.rows[j].wf());
}

} // verus!
