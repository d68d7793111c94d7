use vstd::prelude::*;

use crate::decode::{cells_fit, row_fits, value_of, values_from_row, Cell, DecodeError, Rule};
use crate::encode::{encode_values, encodes_row, first_refusal, EncodeError, WireField};
use crate::value::{Record, SchemaRef, Value};

verus! {

/// What the backend row source did when it was last asked for a row.
#[derive(Debug)]
pub enum RowEvent {
    /// A row arrived: the rule of each of its columns, and the cell that each
    /// rule's accessor read.
    Row { rules: Vec<Rule>, cells: Vec<Cell> },
    /// A row arrived with a column whose type has no rule.
    Undecodable(DecodeError),
    /// The row source failed, with its message.
    Failed(String),
    /// The row source has no more rows.
    End,
    /// The row source has not delivered the next row yet.
    Pending,
}

/// Why one step of a record stream failed.
#[derive(Debug)]
pub enum StreamError {
    /// The backend failed; its message.
    Backend(String),
    /// The row has a column that cannot be decoded.
    Decode(DecodeError),
    /// The row's width is not the schema's.
    Width { columns: usize, width: usize },
    /// A cell does not have the shape that its column's rule reads.
    CellMismatch,
}

/// The outcome of one step: a record, an error for that row, or the end of
/// the sequence; or nothing yet.
#[derive(Debug)]
pub enum Step {
    Ready(Option<Result<Record, StreamError>>),
    Pending,
}

/// A single-pass, pull-based sequence of records decoded from a backend row
/// source, all tagged with one schema.
#[derive(Debug)]
pub struct PgRecordStream {
    schema: SchemaRef,
    ended: bool,
}

/// Whether `values` is the row of `cells`, each decoded by its column's rule.
pub open spec fn decodes(rules: Seq<Rule>, cells: Seq<Cell>, values: Seq<Value>) -> bool {
    values.len() == cells.len() && forall|i: int|
        0 <= i < cells.len() ==> values[i] == value_of(rules[i], #[trigger] cells[i])
}

/// Whether a row event carries a row that decodes under `schema`.
pub open spec fn well_formed_row(schema: SchemaRef, event: RowEvent) -> bool {
    match event {
        RowEvent::Row { rules, cells } => row_fits(rules@, cells@) && cells@.len()
            == schema.width(),
        _ => false,
    }
}

/// Whether `out` is what one step delivers for `event` on a stream with this
/// schema that had, or had not, already ended.
pub open spec fn delivers(schema: SchemaRef, ended: bool, event: RowEvent, out: Step) -> bool {
    if ended {
        out == Step::Ready(None)
    } else {
        match event {
            RowEvent::Pending => out is Pending,
            RowEvent::End => out == Step::Ready(None),
            RowEvent::Failed(m) => out == Step::Ready(Some(Err(StreamError::Backend(m)))),
            RowEvent::Undecodable(e) => out == Step::Ready(Some(Err(StreamError::Decode(e)))),
            RowEvent::Row { rules, cells } => {
                if !row_fits(rules@, cells@) {
                    out == Step::Ready(Some(Err(StreamError::CellMismatch)))
                } else if cells@.len() != schema.width() {
                    out == Step::Ready(
                        Some(
                            Err(
                                StreamError::Width {
                                    columns: cells@.len() as usize,
                                    width: schema.width() as usize,
                                },
                            ),
                        ),
                    )
                } else {
                    out matches Step::Ready(Some(Ok(rec))) && rec.schema == schema && decodes(
                        rules@,
                        cells@,
                        rec.values@,
                    )
                }
            },
        }
    }
}

impl PgRecordStream {
    pub closed spec fn schema_spec(&self) -> SchemaRef {
        self.schema
    }

    /// Whether the stream has delivered its end of sequence.
    pub closed spec fn has_ended(&self) -> bool {
        self.ended
    }

    pub fn new(schema: SchemaRef) -> (r: Self)
        ensures
            r.schema_spec() == schema,
            !r.has_ended(),
    {
        PgRecordStream { schema, ended: false }
    }

    /// The schema of every record of this stream.
    pub fn schema(&self) -> (r: SchemaRef)
        ensures
            r == self.schema_spec(),
    {
        self.schema.clone()
    }

    /// Takes one step: turns what the row source did into the next record,
    /// an error for this row alone, the end of the sequence, or nothing yet.
    /// Once ended, the stream stays ended.
    pub fn poll_next(&mut self, event: RowEvent) -> (r: Step)
        ensures
            delivers(old(self).schema_spec(), old(self).has_ended(), event, r),
            final(self).schema_spec() == old(self).schema_spec(),
            final(self).has_ended() == (old(self).has_ended() || event is End),
            r matches Step::Ready(Some(Ok(rec))) ==> rec.aligned(),
    {
        if self.ended {
            return Step::Ready(None);
        }
        match event {
            RowEvent::Pending => Step::Pending,
            RowEvent::End => {
                self.ended = true;
                Step::Ready(None)
            },
            RowEvent::Failed(m) => Step::Ready(Some(Err(StreamError::Backend(m)))),
            RowEvent::Undecodable(e) => Step::Ready(Some(Err(StreamError::Decode(e)))),
            RowEvent::Row { rules, cells } => {
                if !cells_fit(&rules, &cells) {
                    return Step::Ready(Some(Err(StreamError::CellMismatch)));
                }
                let width = self.schema.len();
                if cells.len() != width {
                    return Step::Ready(
                        Some(Err(StreamError::Width { columns: cells.len(), width })),
                    );
                }
                let values = values_from_row(&rules, cells);
                Step::Ready(Some(Ok(Record { values, schema: self.schema.clone() })))
            },
        }
    }
}

/// Whether some event before step `i` was the end of the sequence.
pub open spec fn ended_before(events: Seq<RowEvent>, i: int) -> bool {
    exists|j: int| 0 <= j < i && (#[trigger] events[j]) is End
}

/// Whether `outs` is what a fresh stream with this schema delivers when it is
/// fed `events`, one per step.
pub open spec fn runs(schema: SchemaRef, events: Seq<RowEvent>, outs: Seq<Step>) -> bool {
    outs.len() == events.len() && forall|i: int|
        0 <= i < events.len() ==> delivers(schema, ended_before(events, i), #[trigger] events[i], outs[i])
}

/// Whether `out` is the record of the row that `event` carries.
pub open spec fn delivers_row(schema: SchemaRef, event: RowEvent, out: Step) -> bool {
    out matches Step::Ready(Some(Ok(rec))) && rec.schema == schema && decodes(
        event->rules@,
        event->cells@,
        rec.values@,
    )
}

proof fn lemma_ended_before_next(events: Seq<RowEvent>, i: int)
    requires
        0 <= i < events.len(),
    ensures
        ended_before(events, i + 1) == (ended_before(events, i) || events[i] is End),
{
    if ended_before(events, i + 1) && !(events[i] is End) {
        let j = choose|j: int| 0 <= j < i + 1 && (#[trigger] events[j]) is End;
        assert(j < i);
    }
    if events[i] is End {
        assert(0 <= i < i + 1 && events[i] is End);
    }
}

/// Runs a fresh stream with this schema over `events`, one step per event,
/// and gives the outcome of each step in order.
pub fn run_stream(schema: SchemaRef, events: Vec<RowEvent>) -> (r: Vec<Step>)
    ensures
        runs(schema, events@, r@),
{
    let ghost all = events@;
    let n = events.len();
    let mut rest = events;
    let mut stream = PgRecordStream::new(schema);
    let mut outs: Vec<Step> = Vec::new();
    let mut i: usize = 0;
    while i < n
        invariant
            all == events@,
            n == all.len(),
            i <= n,
            rest@ == all.subrange(i as int, n as int),
            stream.schema_spec() == schema,
            stream.has_ended() == ended_before(all, i as int),
            outs@.len() == i,
            forall|k: int|
                0 <= k < i ==> delivers(schema, ended_before(all, k), #[trigger] all[k], outs@[k]),
        decreases n - i,
    {
        let event = rest.remove(0);
        assert(event == all[i as int]);
        proof {
            lemma_ended_before_next(all, i as int);
        }
        let out = stream.poll_next(event);
        outs.push(out);
        i = i + 1;
    }
    outs
}

/// Stream ordering: fed N well-formed rows and then the end (as by
/// `run_stream`), a fresh stream delivers exactly N records, the i-th holding
/// the values of the i-th row, and then the end of the sequence.
pub proof fn lemma_stream_order(schema: SchemaRef, events: Seq<RowEvent>, outs: Seq<Step>)
    requires
        runs(schema, events, outs),
        events.len() >= 1,
        events.last() is End,
        forall|i: int| 0 <= i < events.len() - 1 ==> well_formed_row(schema, #[trigger] events[i]),
    ensures
        forall|i: int| 0 <= i < events.len() - 1 ==> delivers_row(schema, #[trigger] events[i], outs[i]),
        outs.last() == Step::Ready(None),
{
    let n = events.len() - 1;
    assert forall|i: int| 0 <= i <= n implies !ended_before(events, i) by {
        if ended_before(events, i) {
            let j = choose|j: int| 0 <= j < i && (#[trigger] events[j]) is End;
            assert(well_formed_row(schema, events[j]));
        }
    }
    assert forall|i: int| 0 <= i < n implies delivers_row(schema, #[trigger] events[i], outs[i]) by {
        assert(delivers(schema, ended_before(events, i), events[i], outs[i]));
        assert(well_formed_row(schema, events[i]));
    }
    assert(delivers(schema, ended_before(events, n), events[n], outs[n]));
}

/// Error locality: when the rows before step k are well formed and step k
/// meets a backend failure or a row that cannot be decoded, the first k steps
/// still deliver the records of their own rows and step k delivers an error,
/// not a record.
pub proof fn lemma_error_locality(schema: SchemaRef, events: Seq<RowEvent>, outs: Seq<Step>, k: int)
    requires
        runs(schema, events, outs),
        0 <= k < events.len(),
        forall|i: int| 0 <= i < k ==> well_formed_row(schema, #[trigger] events[i]),
        events[k] is Failed || events[k] is Undecodable || (events[k] is Row && !well_formed_row(
            schema,
            events[k],
        )),
    ensures
        forall|i: int| 0 <= i < k ==> delivers_row(schema, #[trigger] events[i], outs[i]),
        outs[k] matches Step::Ready(Some(Err(_))),
{
    assert forall|i: int| 0 <= i <= k implies !ended_before(events, i) by {
        if ended_before(events, i) {
            let j = choose|j: int| 0 <= j < i && (#[trigger] events[j]) is End;
            assert(well_formed_row(schema, events[j]));
        }
    }
    assert forall|i: int| 0 <= i < k implies delivers_row(schema, #[trigger] events[i], outs[i]) by {
        assert(delivers(schema, ended_before(events, i), events[i], outs[i]));
        assert(well_formed_row(schema, events[i]));
    }
    assert(delivers(schema, ended_before(events, k), events[k], outs[k]));
}

/// Why one row of a live response could not be sent.
#[derive(Debug)]
pub enum ResponseError {
    Stream(StreamError),
    Encode(EncodeError),
}

/// Encodes one item pulled from a record stream: a record becomes a data row
/// (or the error of its first reserved value), and a stream error is passed
/// on unchanged.
pub fn encode_stream_item(item: Result<Record, StreamError>) -> (r: Result<
    Vec<WireField>,
    ResponseError,
>)
    ensures
        match item {
            Ok(rec) => {
                &&& r is Ok <==> forall|i: int|
                    0 <= i < rec.values@.len() ==> !(#[trigger] rec.values@[i]).is_reserved()
                &&& r is Ok ==> encodes_row(rec.values@, r->Ok_0@)
                &&& r is Err ==> (r->Err_0 matches ResponseError::Encode(e) && first_refusal(
                    rec.values@,
                    e,
                ))
            },
            Err(e) => r == Err::<Vec<WireField>, ResponseError>(ResponseError::Stream(e)),
        },
{
    match item {
        Ok(rec) => match encode_values(rec.values) {
            Ok(fields) => Ok(fields),
            Err(e) => Err(ResponseError::Encode(e)),
        },
        Err(e) => Err(ResponseError::Stream(e)),
    }
}

} // verus!
