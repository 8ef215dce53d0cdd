use vstd::prelude::*;
use crate::ast::Expr;
use crate::context::{FilterContext, Frame};
use crate::error::Error;
use crate::evaluate::{check_row, checked, fetch_spec, fetch_step, fetched_view, next_passing, row_check, FetchedRow};
use crate::storage::{ScanItem, Storage};
use crate::value::Value;

verus! {

/// An optional predicate, checked against one row at a time with `context`
/// as the scope around the row.
pub struct Filter<'a, 'c> {
    pub storage: &'a Storage,
    pub predicate: &'a Option<Expr>,
    pub context: &'c FilterContext<'a>,
}

impl<'a, 'c> Filter<'a, 'c> {
    pub fn new(storage: &'a Storage, predicate: &'a Option<Expr>, context: &'c FilterContext<'a>) -> (r: Filter<'a, 'c>)
        ensures
            r.storage == storage,
            r.predicate == predicate,
            r.context == context,
    {
        Filter { storage, predicate, context }
    }

    /// Whether the predicate holds for `row` of the table called `alias`;
    /// with no predicate every row passes.
    pub fn check(&self, alias: &'a String, columns: &'a Vec<String>, row: &'a Vec<Value>) -> (r: Result<bool, Error>)
        ensures
            checked(r) == row_check(*self.storage, self.context.frames@, alias, columns, *self.predicate, row),
            self.predicate.is_none() ==> r == Ok::<bool, Error>(true),
    {
        check_row(self.storage, self.context, alias, columns, self.predicate, row)
    }
}

/// The column names of table `table_name`, in order.
pub fn fetch_columns(storage: &Storage, table_name: &str) -> (r: Result<Vec<String>, Error>)
    ensures
        match storage.table_spec(table_name@) {
            Some(t) => r is Ok && r->Ok_0@ == t.columns@,
            None => r matches Err(Error::TableNotFound(n)) && n@ == table_name@,
        },
{
    let table = match storage.table(table_name) {
        Some(t) => t,
        None => return Err(Error::TableNotFound(String::from_str(table_name))),
    };
    let mut names: Vec<String> = Vec::new();
    let mut i: usize = 0;
    while i < table.columns.len()
        invariant
            0 <= i <= table.columns.len(),
            names@ == table.columns@.take(i as int),
        decreases table.columns.len() - i,
    {
        names.push(table.columns[i].clone());
        proof {
            assert(table.columns@.take(i as int + 1) =~= table.columns@.take(i as int).push(table.columns@[i as int]));
        }
        i = i + 1;
    }
    proof {
        assert(table.columns@.take(i as int) =~= table.columns@);
    }
    Ok(names)
}

/// A filtered scan of one table, pulled one item at a time. Each item is a
/// row that passed the filter, or an error in the place where it arose.
pub struct Fetch<'a, 'c> {
    filter: Filter<'a, 'c>,
    alias: &'a String,
    columns: &'a Vec<String>,
    items: &'a Vec<ScanItem>,
    position: usize,
}

impl<'a, 'c> Fetch<'a, 'c> {
    pub closed spec fn wf(&self) -> bool {
        self.position <= self.items@.len()
    }

    /// The items that this scan has yet to give, in order.
    pub closed spec fn remaining(&self) -> Seq<Result<(u64, Vec<Value>), Error>> {
        fetch_spec(
            *self.filter.storage,
            self.filter.context.frames@,
            self.alias,
            self.columns,
            *self.filter.predicate,
            self.items@.skip(self.position as int),
        )
    }

    pub closed spec fn columns_spec(&self) -> &'a Vec<String> {
        self.columns
    }

    /// The next item, if any is left.
    pub fn next(&mut self) -> (r: Option<Result<FetchedRow<'a>, Error>>)
        requires
            old(self).wf(),
        ensures
            final(self).wf(),
            final(self).columns_spec() == old(self).columns_spec(),
            match r {
                None => old(self).remaining().len() == 0 && final(self).remaining() == old(self).remaining(),
                Some(x) => old(self).remaining().len() > 0 && fetched_view(x) == old(self).remaining()[0]
                    && final(self).remaining() == old(self).remaining().drop_first() && (x is Ok
                    ==> x->Ok_0.columns == old(self).columns_spec()),
            },
    {
        let (found, position) = next_passing(
            self.filter.storage,
            self.filter.context,
            self.alias,
            self.columns,
            self.filter.predicate,
            self.items,
            self.position,
        );
        self.position = position;
        found
    }

    /// Every item left, in order.
    pub fn rest(&mut self) -> (v: Vec<Result<FetchedRow<'a>, Error>>)
        requires
            old(self).wf(),
        ensures
            final(self).wf(),
            final(self).remaining().len() == 0,
            forall|i: int| 0 <= i < v@.len() && v@[i] is Ok ==> (#[trigger] v@[i])->Ok_0.columns == old(self).columns_spec(),
            v@.map_values(|x: Result<FetchedRow<'a>, Error>| fetched_view(x)) == old(self).remaining(),
    {
        let mut v: Vec<Result<FetchedRow<'a>, Error>> = Vec::new();
        loop
            invariant
                self.wf(),
                self.columns_spec() == old(self).columns_spec(),
                forall|i: int| 0 <= i < v@.len() && v@[i] is Ok ==> (#[trigger] v@[i])->Ok_0.columns == old(self).columns_spec(),
                v@.map_values(|x: Result<FetchedRow<'a>, Error>| fetched_view(x)) + self.remaining()
                    == old(self).remaining(),
            decreases self.remaining().len(),
        {
            let ghost before = self.remaining();
            let ghost pos = self.position;
            match self.next() {
                None => {
                    proof {
                        assert(v@.map_values(|x: Result<FetchedRow<'a>, Error>| fetched_view(x)) + self.remaining()
                            =~= v@.map_values(|x: Result<FetchedRow<'a>, Error>| fetched_view(x)));
                    }
                    return v;
                },
                Some(x) => {
                    let ghost old_v = v@;
                    v.push(x);
                    proof {
                        assert(v@.map_values(|x: Result<FetchedRow<'a>, Error>| fetched_view(x))
                            =~= old_v.map_values(|x: Result<FetchedRow<'a>, Error>| fetched_view(x)).push(fetched_view(x)));
                        assert(before =~= seq![before[0]] + before.drop_first());
                        assert(v@.map_values(|x: Result<FetchedRow<'a>, Error>| fetched_view(x)) + self.remaining()
                            =~= old_v.map_values(|x: Result<FetchedRow<'a>, Error>| fetched_view(x)) + before);
                    }
                },
            }
        }
    }
}

/// Starts a filtered scan of table `table_name`. The rows are checked with
/// `filter` under the table's own name, one at a time as they are pulled.
pub fn fetch<'a, 'c>(storage: &'a Storage, table_name: &str, columns: &'a Vec<String>, filter: Filter<'a, 'c>) -> (r:
    Result<Fetch<'a, 'c>, Error>)
    ensures
        match storage.table_spec(table_name@) {
            Some(t) => r is Ok && r->Ok_0.wf() && r->Ok_0.columns_spec() == columns && r->Ok_0.remaining()
                == fetch_spec(
                *filter.storage,
                filter.context.frames@,
                &t.name,
                columns,
                *filter.predicate,
                t.items@,
            ),
            None => r matches Err(Error::TableNotFound(n)) && n@ == table_name@,
        },
{
    let table = match storage.table(table_name) {
        Some(t) => t,
        None => return Err(Error::TableNotFound(String::from_str(table_name))),
    };
    proof {
        assert(table.items@.skip(0) =~= table.items@);
    }
    Ok(Fetch { filter, alias: &table.name, columns, items: &table.items, position: 0 })
}

/// The item that a scan yields for `item`, before any filter.
pub open spec fn scan_result(item: ScanItem) -> Result<(u64, Vec<Value>), Error> {
    match item {
        ScanItem::Row { key, row } => Ok((key, row)),
        ScanItem::Fault(m) => Err(Error::Scan(m)),
    }
}

/// Whether a scanned row passes the predicate.
pub open spec fn passes<'a>(
    st: Storage,
    frames: Seq<Frame<'a>>,
    alias: &'a String,
    columns: &'a Vec<String>,
    pred: Option<Expr>,
    item: ScanItem,
) -> bool {
    match item {
        ScanItem::Row { key, row } => row_check(st, frames, alias, columns, pred, &row) == Ok::<bool, Error>(true),
        ScanItem::Fault(_) => false,
    }
}

/// A filtered scan of two runs of items is the scan of the first followed by
/// the scan of the second.
pub proof fn lemma_fetch_concat<'a>(
    st: Storage,
    frames: Seq<Frame<'a>>,
    alias: &'a String,
    columns: &'a Vec<String>,
    pred: Option<Expr>,
    a: Seq<ScanItem>,
    b: Seq<ScanItem>,
)
    ensures
        fetch_spec(st, frames, alias, columns, pred, a + b) == fetch_spec(st, frames, alias, columns, pred, a)
            + fetch_spec(st, frames, alias, columns, pred, b),
    decreases a.len(),
{
    reveal(fetch_step);
    if a.len() == 0 {
        assert(a + b =~= b);
        assert(fetch_spec(st, frames, alias, columns, pred, a) =~= Seq::empty());
        assert(Seq::<Result<(u64, Vec<Value>), Error>>::empty() + fetch_spec(st, frames, alias, columns, pred, b)
            =~= fetch_spec(st, frames, alias, columns, pred, b));
    } else {
        lemma_fetch_concat(st, frames, alias, columns, pred, a.drop_first(), b);
        assert((a + b).drop_first() =~= a.drop_first() + b);
        assert((a + b)[0] == a[0]);
        let s0 = fetch_step(st, frames, alias, columns, pred, a[0]);
        let fa = fetch_spec(st, frames, alias, columns, pred, a.drop_first());
        let fb = fetch_spec(st, frames, alias, columns, pred, b);
        assert(s0 + (fa + fb) =~= (s0 + fa) + fb);
    }
}

/// Without a predicate, a fetch yields every scanned item, in scan order.
pub proof fn lemma_fetch_without_predicate<'a>(
    st: Storage,
    frames: Seq<Frame<'a>>,
    alias: &'a String,
    columns: &'a Vec<String>,
    items: Seq<ScanItem>,
)
    ensures
        fetch_spec(st, frames, alias, columns, None, items) == items.map_values(|it: ScanItem| scan_result(it)),
    decreases items.len(),
{
    reveal(fetch_step);
    if items.len() == 0 {
        assert(items.map_values(|it: ScanItem| scan_result(it)) =~= Seq::empty());
    } else {
        lemma_fetch_without_predicate(st, frames, alias, columns, items.drop_first());
        assert(items.map_values(|it: ScanItem| scan_result(it)) =~= seq![scan_result(items[0])]
            + items.drop_first().map_values(|it: ScanItem| scan_result(it)));
        assert(fetch_step(st, frames, alias, columns, None, items[0]) == seq![scan_result(items[0])]);
    }
}

/// Where the scan and the predicate fail nowhere, a fetch yields exactly the
/// rows that pass the predicate, in scan order.
pub proof fn lemma_fetch_filters<'a>(
    st: Storage,
    frames: Seq<Frame<'a>>,
    alias: &'a String,
    columns: &'a Vec<String>,
    pred: Option<Expr>,
    items: Seq<ScanItem>,
)
    requires
        forall|i: int|
            0 <= i < items.len() ==> (#[trigger] items[i] matches ScanItem::Row { key, row } && row_check(
                st,
                frames,
                alias,
                columns,
                pred,
                &row,
            ) is Ok),
    ensures
        fetch_spec(st, frames, alias, columns, pred, items) == items.filter(
            |it: ScanItem| passes(st, frames, alias, columns, pred, it),
        ).map_values(|it: ScanItem| scan_result(it)),
    decreases items.len(),
{
    reveal(fetch_step);
    let p = |it: ScanItem| passes(st, frames, alias, columns, pred, it);
    if items.len() == 0 {
        assert(items.filter(p) =~= Seq::empty()) by {
            reveal(Seq::filter);
        }
        assert(items.filter(p).map_values(|it: ScanItem| scan_result(it)) =~= Seq::empty());
    } else {
        let rest = items.drop_first();
        assert forall|i: int| 0 <= i < rest.len() implies (#[trigger] rest[i] matches ScanItem::Row { key, row }
            && row_check(st, frames, alias, columns, pred, &row) is Ok) by {
            assert(rest[i] == items[i + 1]);
        }
        lemma_fetch_filters(st, frames, alias, columns, pred, rest);
        assert(items =~= seq![items[0]] + rest);
        rest.lemma_filter_prepend(items[0], p);
        let head: Seq<ScanItem> = if p(items[0]) {
            seq![items[0]]
        } else {
            Seq::empty()
        };
        assert((head + rest.filter(p)).map_values(|it: ScanItem| scan_result(it)) =~= head.map_values(
            |it: ScanItem| scan_result(it),
        ) + rest.filter(p).map_values(|it: ScanItem| scan_result(it)));
        assert(items[0] matches ScanItem::Row { key, row } && row_check(st, frames, alias, columns, pred, &row) is Ok);
        assert(fetch_step(st, frames, alias, columns, pred, items[0]) =~= head.map_values(
            |it: ScanItem| scan_result(it),
        ));
    }
}

/// The scan of a single item: a passing row or a failure yields itself.
proof fn lemma_fetch_one<'a>(
    st: Storage,
    frames: Seq<Frame<'a>>,
    alias: &'a String,
    columns: &'a Vec<String>,
    pred: Option<Expr>,
    x: ScanItem,
)
    requires
        x is Fault || passes(st, frames, alias, columns, pred, x),
    ensures
        fetch_spec(st, frames, alias, columns, pred, seq![x]) == seq![scan_result(x)],
{
    reveal(fetch_step);
    assert(seq![x].drop_first() =~= Seq::<ScanItem>::empty());
    assert(fetch_spec(st, frames, alias, columns, pred, Seq::<ScanItem>::empty()) == Seq::<Result<(u64, Vec<Value>), Error>>::empty());
    assert(seq![x][0] == x);
    assert(fetch_step(st, frames, alias, columns, pred, x) + Seq::empty() =~= seq![scan_result(x)]);
}

/// A scan failure between two passing rows stands in its own place, and
/// both rows are still yielded, whatever comes before and after.
pub proof fn lemma_scan_error_in_place<'a>(
    st: Storage,
    frames: Seq<Frame<'a>>,
    alias: &'a String,
    columns: &'a Vec<String>,
    pred: Option<Expr>,
    before: Seq<ScanItem>,
    after: Seq<ScanItem>,
    k1: u64,
    r1: Vec<Value>,
    message: String,
    k2: u64,
    r2: Vec<Value>,
)
    requires
        row_check(st, frames, alias, columns, pred, &r1) == Ok::<bool, Error>(true),
        row_check(st, frames, alias, columns, pred, &r2) == Ok::<bool, Error>(true),
    ensures
        fetch_spec(
            st,
            frames,
            alias,
            columns,
            pred,
            before + seq![ScanItem::Row { key: k1, row: r1 }, ScanItem::Fault(message), ScanItem::Row { key: k2, row: r2 }]
                + after,
        ) == fetch_spec(st, frames, alias, columns, pred, before) + seq![
            Ok((k1, r1)),
            Err(Error::Scan(message)),
            Ok((k2, r2)),
        ] + fetch_spec(st, frames, alias, columns, pred, after),
{
    let x1 = ScanItem::Row { key: k1, row: r1 };
    let x2 = ScanItem::Fault(message);
    let x3 = ScanItem::Row { key: k2, row: r2 };
    let t23: Seq<ScanItem> = seq![x2, x3];
    let mid: Seq<ScanItem> = seq![x1, x2, x3];
    assert(mid =~= seq![x1] + t23);
    assert(t23 =~= seq![x2] + seq![x3]);
    lemma_fetch_one(st, frames, alias, columns, pred, x1);
    lemma_fetch_one(st, frames, alias, columns, pred, x2);
    lemma_fetch_one(st, frames, alias, columns, pred, x3);
    lemma_fetch_concat(st, frames, alias, columns, pred, seq![x2], seq![x3]);
    lemma_fetch_concat(st, frames, alias, columns, pred, seq![x1], t23);
    let out: Seq<Result<(u64, Vec<Value>), Error>> = seq![Ok((k1, r1)), Err(Error::Scan(message)), Ok((k2, r2))];
    assert(fetch_spec(st, frames, alias, columns, pred, mid) =~= out);
    lemma_fetch_concat(st, frames, alias, columns, pred, before, mid);
    lemma_fetch_concat(st, frames, alias, columns, pred, before + mid, after);
}

} // verus!
