use vstd::prelude::*;
use crate::value::Value;

verus! {

/// One item of a table scan: a row under its key, or a failure to read one.
#[derive(Debug)]
pub enum ScanItem {
    Row { key: u64, row: Vec<Value> },
    Fault(String),
}

/// A table as the storage engine presents it: its schema and what a scan
/// of it yields, in scan order.
#[derive(Debug)]
pub struct Table {
    pub name: String,
    pub columns: Vec<String>,
    pub items: Vec<ScanItem>,
}

/// The storage engine as the evaluator sees it.
#[derive(Debug)]
pub struct Storage {
    pub tables: Vec<Table>,
}

/// The first position at or after `start` of a table called `name`, or -1.
pub open spec fn table_index_from(tables: Seq<Table>, name: Seq<char>, start: int) -> int
    decreases tables.len() - start,
{
    if start < 0 || start >= tables.len() {
        -1
    } else if tables[start].name@ == name {
        start
    } else {
        table_index_from(tables, name, start + 1)
    }
}

/// Whether two strings hold the same characters.
pub fn same_text(a: &str, b: &str) -> (r: bool)
    ensures
        r == (a@ == b@),
{
    let n = a.unicode_len();
    if n != b.unicode_len() {
        return false;
    }
    let mut i: usize = 0;
    while i < n
        invariant
            n == a@.len(),
            n == b@.len(),
            0 <= i <= n,
            a@.take(i as int) == b@.take(i as int),
        decreases n - i,
    {
        if a.get_char(i) != b.get_char(i) {
            return false;
        }
        assert(a@.take(i as int + 1) =~= a@.take(i as int).push(a@[i as int]));
        assert(b@.take(i as int + 1) =~= b@.take(i as int).push(b@[i as int]));
        i = i + 1;
    }
    assert(a@ =~= a@.take(n as int));
    assert(b@ =~= b@.take(n as int));
    true
}

impl Storage {
    /// The table called `name`; the first one where several share it.
    pub open spec fn table_spec(&self, name: Seq<char>) -> Option<Table> {
        let i = table_index_from(self.tables@, name, 0);
        if 0 <= i < self.tables@.len() {
            Some(self.tables@[i])
        } else {
            None
        }
    }

    pub fn table(&self, name: &str) -> (r: Option<&Table>)
        ensures
            match r {
                Some(t) => self.table_spec(name@) == Some(*t),
                None => self.table_spec(name@).is_none(),
            },
    {
        let mut i: usize = 0;
        while i < self.tables.len()
            invariant
                0 <= i <= self.tables.len(),
                table_index_from(self.tables@, name@, 0) == table_index_from(self.tables@, name@, i as int),
            decreases self.tables.len() - i,
        {
            if same_text(self.tables[i].name.as_str(), name) {
                assert(table_index_from(self.tables@, name@, i as int) == i as int);
                return Some(&self.tables[i]);
            }
            i = i + 1;
        }
        None
    }
}

} // verus!
