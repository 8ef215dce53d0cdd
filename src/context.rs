use vstd::prelude::*;
use crate::error::Error;
use crate::value::Value;

verus! {

/// One scope of a filter context: the current row of one table.
#[derive(Debug, Clone, Copy)]
pub struct Frame<'a> {
    /// The name that qualifies this table's columns.
    pub alias: &'a String,
    pub columns: &'a Vec<String>,
    pub row: &'a Vec<Value>,
}

/// The first position at or after `start` of a column called `name`, or -1.
pub open spec fn index_from(columns: Seq<String>, name: Seq<char>, start: int) -> int
    decreases columns.len() - start,
{
    if start < 0 || start >= columns.len() {
        -1
    } else if columns[start]@ == name {
        start
    } else {
        index_from(columns, name, start + 1)
    }
}

proof fn lemma_index_from_range(columns: Seq<String>, name: Seq<char>, start: int)
    requires
        0 <= start,
    ensures
        index_from(columns, name, start) == -1 || (start <= index_from(columns, name, start)
            < columns.len() && columns[index_from(columns, name, start)]@ == name),
    decreases columns.len() - start,
{
    if start < columns.len() && columns[start]@ != name {
        lemma_index_from_range(columns, name, start + 1);
    }
}

impl<'a> Frame<'a> {
    /// The value of column `name` in this frame's row.
    pub open spec fn value_of(self, name: Seq<char>) -> Option<Value> {
        let i = index_from(self.columns@, name, 0);
        if 0 <= i < self.row@.len() {
            Some(self.row@[i])
        } else {
            None
        }
    }

    pub fn get_value(&self, name: &String) -> (r: Option<&'a Value>)
        ensures
            match r {
                Some(v) => self.value_of(name@) == Some(*v),
                None => self.value_of(name@).is_none(),
            },
    {
        let columns: &'a Vec<String> = self.columns;
        let row: &'a Vec<Value> = self.row;
        let mut i: usize = 0;
        while i < columns.len()
            invariant
                0 <= i <= columns.len(),
                columns == self.columns,
                row == self.row,
                index_from(columns@, name@, 0) == index_from(columns@, name@, i as int),
            decreases columns.len() - i,
        {
            if columns[i] == *name {
                assert(index_from(columns@, name@, i as int) == i as int);
                if i < row.len() {
                    return Some(&row[i]);
                } else {
                    return None;
                }
            }
            i = i + 1;
        }
        None
    }
}

/// The value of column `name` in the innermost frame that holds it.
pub open spec fn context_value(frames: Seq<Frame>, name: Seq<char>) -> Option<Value>
    decreases frames.len(),
{
    if frames.len() == 0 {
        None
    } else {
        match frames.last().value_of(name) {
            Some(v) => Some(v),
            None => context_value(frames.drop_last(), name),
        }
    }
}

/// The value of column `name` in the innermost frame called `alias` that holds it.
pub open spec fn context_alias_value(frames: Seq<Frame>, alias: Seq<char>, name: Seq<char>) -> Option<Value>
    decreases frames.len(),
{
    if frames.len() == 0 {
        None
    } else if frames.last().alias@ == alias && frames.last().value_of(name).is_some() {
        frames.last().value_of(name)
    } else {
        context_alias_value(frames.drop_last(), alias, name)
    }
}

/// Name resolution for expressions: a chain of frames, the innermost last.
/// Lookups go from the innermost frame outward, which lets a subquery read
/// the rows of the queries around it.
pub struct FilterContext<'a> {
    pub frames: Vec<Frame<'a>>,
}

impl<'a> FilterContext<'a> {
    /// A context with no frame: every lookup fails.
    pub fn empty() -> (r: FilterContext<'a>)
        ensures
            r.frames@ == Seq::<Frame<'a>>::empty(),
    {
        FilterContext { frames: Vec::new() }
    }

    /// This context with `frame` added as the innermost scope.
    pub fn with_frame(&self, frame: Frame<'a>) -> (r: FilterContext<'a>)
        ensures
            r.frames@ == self.frames@.push(frame),
    {
        let mut frames: Vec<Frame<'a>> = Vec::new();
        let mut i: usize = 0;
        while i < self.frames.len()
            invariant
                0 <= i <= self.frames.len(),
                frames@ == self.frames@.take(i as int),
            decreases self.frames.len() - i,
        {
            frames.push(self.frames[i]);
            proof {
                assert(self.frames@.take(i as int + 1) =~= self.frames@.take(i as int).push(self.frames@[i as int]));
            }
            i = i + 1;
        }
        frames.push(frame);
        proof {
            assert(self.frames@.take(i as int) =~= self.frames@);
        }
        FilterContext { frames }
    }

    /// The value of the unqualified column `name`.
    pub fn get_value(&self, name: &String) -> (r: Result<&'a Value, Error>)
        ensures
            match r {
                Ok(v) => context_value(self.frames@, name@) == Some(*v),
                Err(e) => context_value(self.frames@, name@).is_none() && e == Error::ValueNotFound(*name),
            },
    {
        let mut i: usize = self.frames.len();
        assert(self.frames@.take(i as int) =~= self.frames@);
        while i > 0
            invariant
                0 <= i <= self.frames.len(),
                context_value(self.frames@, name@) == context_value(self.frames@.take(i as int), name@),
            decreases i,
        {
            proof {
                assert(self.frames@.take(i as int).drop_last() =~= self.frames@.take(i as int - 1));
            }
            let frame = self.frames[i - 1];
            match frame.get_value(name) {
                Some(v) => return Ok(v),
                None => {},
            }
            i = i - 1;
        }
        Err(Error::ValueNotFound(name.clone()))
    }

    /// The value of column `name` of the table called `alias`.
    pub fn get_alias_value(&self, alias: &String, name: &String) -> (r: Result<&'a Value, Error>)
        ensures
            match r {
                Ok(v) => context_alias_value(self.frames@, alias@, name@) == Some(*v),
                Err(e) => context_alias_value(self.frames@, alias@, name@).is_none() && e
                    == Error::ValueNotFound(*name),
            },
    {
        let mut i: usize = self.frames.len();
        assert(self.frames@.take(i as int) =~= self.frames@);
        while i > 0
            invariant
                0 <= i <= self.frames.len(),
                context_alias_value(self.frames@, alias@, name@) == context_alias_value(
                    self.frames@.take(i as int),
                    alias@,
                    name@,
                ),
            decreases i,
        {
            proof {
                assert(self.frames@.take(i as int).drop_last() =~= self.frames@.take(i as int - 1));
            }
            let frame = self.frames[i - 1];
            if *frame.alias == *alias {
                match frame.get_value(name) {
                    Some(v) => return Ok(v),
                    None => {},
                }
            }
            i = i - 1;
        }
        Err(Error::ValueNotFound(name.clone()))
    }
}

} // verus!
