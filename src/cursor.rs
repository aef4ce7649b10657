use vstd::prelude::*;

use crate::engine::{SQLite3Error, Statement, SQLITE_DONE, SQLITE_OK, SQLITE_ROW};
use crate::entity::{
    column_entity, decode_column, entity_type_of, fits, row_view, type_of_tag, ColumnValue,
    Entity, EntityType, EntityView,
};

verus! {

/// The state of a statement's execution, read one row at a time.
#[derive(Debug)]
pub enum Cursor {
    /// The statement ran without a result set; yields `[OK]` once.
    OKCursor,
    /// The statement ran to completion without rows; yields `[DONE]` once.
    DONECursor,
    /// A result set; a row is ready while `previous_status` is a row status.
    RowsCursor { stmt: Statement, num_columns: i32, types: Vec<EntityType>, previous_status: i32 },
    /// Iteration has ended for good.
    Exhausted,
}

impl Cursor {
    /// A result set has exactly one captured type per column.
    pub open spec fn wf(&self) -> bool {
        match self {
            Cursor::RowsCursor { num_columns, types, .. } => types@.len() == *num_columns as int,
            _ => true,
        }
    }

    /// Whether the next advance yields a row.
    pub open spec fn yields(&self) -> bool {
        match self {
            Cursor::OKCursor => true,
            Cursor::DONECursor => true,
            Cursor::RowsCursor { previous_status, .. } => *previous_status == SQLITE_ROW,
            Cursor::Exhausted => false,
        }
    }

    /// The state after an advance in which the engine's next step reported `status`.
    pub open spec fn advanced(self, status: i32) -> Cursor {
        match self {
            Cursor::RowsCursor { stmt, num_columns, types, previous_status } => {
                if previous_status == SQLITE_ROW {
                    Cursor::RowsCursor { stmt, num_columns, types, previous_status: status }
                } else {
                    self
                }
            },
            _ => Cursor::Exhausted,
        }
    }

    /// Whether `columns` is what the engine's readers yield for the current row.
    pub open spec fn accepts_spec(&self, columns: Seq<ColumnValue>) -> bool {
        match self {
            Cursor::RowsCursor { types, .. } => columns.len() == types@.len() && forall|i: int|
                0 <= i < columns.len() ==> #[trigger] fits(types@[i], columns[i]),
            _ => true,
        }
    }

    /// The row yielded from the current state, given what was read for its columns.
    pub open spec fn row_of(&self, columns: Seq<ColumnValue>) -> Seq<EntityView> {
        match self {
            Cursor::OKCursor => seq![EntityView::OK],
            Cursor::DONECursor => seq![EntityView::DONE],
            Cursor::RowsCursor { types, .. } => Seq::new(
                columns.len(),
                |i: int| column_entity(types@[i], columns[i]),
            ),
            Cursor::Exhausted => Seq::empty(),
        }
    }

    /// Whether the next advance yields a row.
    pub fn has_row(&self) -> (r: bool)
        ensures
            r == self.yields(),
    {
        match self {
            Cursor::OKCursor => true,
            Cursor::DONECursor => true,
            Cursor::RowsCursor { previous_status, .. } => *previous_status == SQLITE_ROW,
            Cursor::Exhausted => false,
        }
    }

    /// Whether this is a result set, whose advance needs the engine's next step;
    /// an acknowledgement's does not.
    pub fn is_result_set(&self) -> (r: bool)
        ensures
            r == (*self is RowsCursor),
    {
        match self {
            Cursor::RowsCursor { .. } => true,
            _ => false,
        }
    }

    /// The column types captured from the first row; empty for the acknowledgements.
    pub fn column_types(&self) -> (r: Vec<EntityType>)
        ensures
            match self {
                Cursor::RowsCursor { types, .. } => r@ == types@,
                _ => r@.len() == 0,
            },
    {
        match self {
            Cursor::RowsCursor { types, .. } => types.clone(),
            _ => Vec::new(),
        }
    }

    /// Whether `columns` is what the engine's readers yield for the current row.
    pub fn accepts(&self, columns: &Vec<ColumnValue>) -> (r: bool)
        ensures
            r == self.accepts_spec(columns@),
    {
        match self {
            Cursor::RowsCursor { types, .. } => {
                if columns.len() != types.len() {
                    return false;
                }
                let mut i: usize = 0;
                while i < columns.len()
                    invariant
                        *self is RowsCursor,
                        self->types == *types,
                        columns@.len() == types@.len(),
                        0 <= i <= columns@.len(),
                        forall|j: int| 0 <= j < i ==> #[trigger] fits(types@[j], columns@[j]),
                    decreases columns@.len() - i,
                {
                    let ok = match (types[i], &columns[i]) {
                        (EntityType::Integer, ColumnValue::Integer { .. }) => true,
                        (EntityType::Float, ColumnValue::Double { .. }) => true,
                        (EntityType::Text, ColumnValue::Bytes { .. }) => true,
                        (EntityType::Blob, ColumnValue::Bytes { .. }) => true,
                        (EntityType::Null, ColumnValue::Null) => true,
                        _ => false,
                    };
                    if !ok {
                        assert(!fits(types@[i as int], columns@[i as int]));
                        return false;
                    }
                    i += 1;
                }
                true
            },
            _ => true,
        }
    }

    /// Yields the current row and moves on. `columns` holds what the engine read
    /// for the current row; `next_status` is what its following step reported.
    /// An acknowledgement yields its single row and then ends; a result set ends
    /// at the first step that reports no row.
    pub fn next(&mut self, columns: Vec<ColumnValue>, next_status: i32) -> (r: Option<Vec<Entity>>)
        requires
            old(self).wf(),
            old(self).yields() ==> old(self).accepts_spec(columns@),
        ensures
            final(self).wf(),
            *final(self) == old(self).advanced(next_status),
            r is Some <==> old(self).yields(),
            r is Some ==> row_view(r->0@) == old(self).row_of(columns@),
    {
        match self {
            Cursor::OKCursor => {
                *self = Cursor::Exhausted;
                Some(vec![Entity::OK])
            },
            Cursor::DONECursor => {
                *self = Cursor::Exhausted;
                Some(vec![Entity::DONE])
            },
            Cursor::RowsCursor { types, previous_status, .. } => {
                if *previous_status != SQLITE_ROW {
                    return None;
                }
                let ghost cols = columns@;
                let mut row: Vec<Entity> = Vec::new();
                let mut rest = columns;
                let mut i: usize = 0;
                while i < types.len()
                    invariant
                        cols.len() == types@.len(),
                        0 <= i <= types@.len(),
                        rest@ == cols.subrange(i as int, cols.len() as int),
                        forall|j: int| 0 <= j < cols.len() ==> #[trigger] fits(types@[j], cols[j]),
                        row@.len() == i,
                        forall|j: int|
                            0 <= j < i ==> (#[trigger] row@[j])@ == column_entity(types@[j], cols[j]),
                    decreases types@.len() - i,
                {
                    let v = rest.remove(0);
                    assert(v == cols[i as int]);
                    let e = decode_column(types[i], v);
                    row.push(e);
                    i += 1;
                }
                *previous_status = next_status;
                assert(row_view(row@) =~= Seq::new(
                    cols.len(),
                    |j: int| column_entity(types@[j], cols[j]),
                ));
                Some(row)
            },
            Cursor::Exhausted => None,
        }
    }
}

/// Decides what a statement's first step means: `status` is what the step
/// reported and `column_tags` the engine's type tag of each result column.
pub fn execute_statement(stmt: Statement, status: i32, column_tags: Vec<i32>) -> (r: Result<
    Cursor,
    SQLite3Error,
>)
    requires
        column_tags@.len() <= i32::MAX,
    ensures
        status == SQLITE_OK ==> r == Ok::<Cursor, SQLite3Error>(Cursor::OKCursor),
        status == SQLITE_DONE ==> r == Ok::<Cursor, SQLite3Error>(Cursor::DONECursor),
        status == SQLITE_ROW ==> r is Ok && match r->Ok_0 {
            Cursor::RowsCursor { stmt: s, num_columns, types, previous_status } => s == stmt
                && num_columns == column_tags@.len() && types@ == column_tags@.map_values(
                |t: i32| type_of_tag(t),
            ) && previous_status == SQLITE_ROW,
            _ => false,
        },
        status != SQLITE_OK && status != SQLITE_DONE && status != SQLITE_ROW ==> r
            == Err::<Cursor, SQLite3Error>(SQLite3Error::ExecuteError),
        r is Ok ==> r->Ok_0.wf() && r->Ok_0.yields(),
{
    if status == SQLITE_OK {
        Ok(Cursor::OKCursor)
    } else if status == SQLITE_DONE {
        Ok(Cursor::DONECursor)
    } else if status == SQLITE_ROW {
        let mut types: Vec<EntityType> = Vec::new();
        let mut i: usize = 0;
        while i < column_tags.len()
            invariant
                0 <= i <= column_tags@.len(),
                types@ == column_tags@.subrange(0, i as int).map_values(|t: i32| type_of_tag(t)),
            decreases column_tags@.len() - i,
        {
            types.push(entity_type_of(column_tags[i]));
            i += 1;
            assert(column_tags@.subrange(0, i as int) =~= column_tags@.subrange(0, i - 1).push(
                column_tags@[i - 1],
            ));
        }
        assert(column_tags@.subrange(0, i as int) =~= column_tags@);
        Ok(
            Cursor::RowsCursor {
                stmt,
                num_columns: column_tags.len() as i32,
                types,
                previous_status: SQLITE_ROW,
            },
        )
    } else {
        Err(SQLite3Error::ExecuteError)
    }
}

/// How many statuses of `steps` report a row before the first that does not.
pub open spec fn leading_rows(steps: Seq<i32>) -> nat
    decreases steps.len(),
{
    if steps.len() == 0 || steps[0] != SQLITE_ROW {
        0
    } else {
        1 + leading_rows(steps.drop_first())
    }
}

/// How many rows advancing `c` yields when the engine's successive steps
/// report `later`, one status per advance.
pub open spec fn drained(c: Cursor, later: Seq<i32>) -> nat
    decreases later.len(),
{
    if !c.yields() {
        0
    } else if later.len() == 0 {
        1
    } else {
        1 + drained(c.advanced(later[0]), later.drop_first())
    }
}

/// Draining a result set ends, and yields as many rows as the engine reported:
/// the first step's row and each row status after it, up to the first status
/// that reports none.
pub proof fn lemma_drain_counts_result_set(c: Cursor, later: Seq<i32>)
    requires
        c is RowsCursor,
        c.yields(),
        exists|i: int| 0 <= i < later.len() && later[i] != SQLITE_ROW,
    ensures
        drained(c, later) == leading_rows(seq![SQLITE_ROW].add(later)),
    decreases later.len(),
{
    let full = seq![SQLITE_ROW].add(later);
    assert(full.drop_first() =~= later);
    let next = c.advanced(later[0]);
    if later[0] == SQLITE_ROW {
        let i = choose|i: int| 0 <= i < later.len() && later[i] != SQLITE_ROW;
        assert(later.drop_first()[i - 1] == later[i]);
        lemma_drain_counts_result_set(next, later.drop_first());
        assert(seq![SQLITE_ROW].add(later.drop_first()) =~= later);
        assert(next.yields());
        assert(drained(c, later) == 1 + drained(next, later.drop_first()));
        assert(leading_rows(full) == 1 + leading_rows(later));
    } else {
        assert(!next.yields());
        assert(drained(next, later.drop_first()) == 0);
        assert(leading_rows(later) == 0);
        assert(full[0] == SQLITE_ROW);
        assert(leading_rows(full) == 1 + leading_rows(later));
    }
}

/// Iteration is not restartable: once a cursor yields no row, no later step
/// status makes it yield one again.
pub proof fn lemma_ended_stays_ended(c: Cursor, later: Seq<i32>)
    requires
        !c.yields(),
    ensures
        drained(c, later) == 0,
        forall|status: i32| !(#[trigger] c.advanced(status)).yields(),
{
}

/// An acknowledgement yields exactly one row, whatever the engine reports next.
pub proof fn lemma_drain_acknowledgement(c: Cursor, later: Seq<i32>)
    requires
        c is OKCursor || c is DONECursor,
    ensures
        drained(c, later) == 1,
{
    if later.len() > 0 {
        assert(!c.advanced(later[0]).yields());
        assert(drained(c.advanced(later[0]), later.drop_first()) == 0);
    }
}

} // verus!
