//! The buffer in which encoded rows wait for the sink.
//!
//! Rows are serialised by `questdb::ingress::Buffer`. What that buffer holds
//! is described here by the operations it has accepted since it was last
//! empty; the bytes themselves are the encoder's business. Which operations
//! it accepts follows from the names handed to it and from the operation it
//! accepted last.

use vstd::prelude::*;
use vstd::utf8::encode_utf8;
use questdb::ingress::{Buffer, ProtocolVersion, TimestampNanos};
use crate::logger::row::{
    row_view_of, Field, FieldValue, FieldValueView, FieldView, Row, RowView, Tag, TagView,
};
use crate::logger::types::Logs;

verus! {

/// `questdb::ingress::Buffer`, carried as an opaque value.
#[verifier::external_type_specification]
#[verifier::external_body]
pub struct ExBuffer(questdb::ingress::Buffer);

/// `questdb::Error`, carried as an opaque value.
#[verifier::external_type_specification]
#[verifier::external_body]
pub struct ExSinkError(questdb::Error);

/// One operation a buffer has accepted.
pub enum BufferOp {
    Table(Seq<char>),
    Symbol(Seq<char>, Seq<char>),
    ColumnI64(Seq<char>, i64),
    ColumnBool(Seq<char>, bool),
    ColumnStr(Seq<char>, Seq<char>),
    At(i64),
}

/// The operations a buffer has accepted, oldest first, since it was last empty.
pub uninterp spec fn buffer_ops(buffer: Buffer) -> Seq<BufferOp>;

/// The operations a buffer goes back to when it is rewound to its marker,
/// if a marker is set.
pub uninterp spec fn buffer_marked(buffer: Buffer) -> Option<Seq<BufferOp>>;

/// Version of the line protocol a buffer writes.
#[derive(Clone, Copy, Debug, PartialEq, Eq, Structural)]
pub enum LineProtocol {
    V1,
    V2,
    V3,
}

/// Why a row was not added to a buffer.
#[derive(Clone, Copy, Debug, PartialEq, Eq, Structural)]
pub enum EncodeError {
    /// The row's timestamp lies before the Unix epoch.
    NegativeTimestamp,
    /// The buffer holds as many rows as it may.
    Full,
    /// The encoder does not accept the row's names, or the row has no column;
    /// the buffer is as it was.
    Rejected,
}

/// Longest name, in bytes, that a buffer made by `Buffer::new` accepts.
pub const MAX_NAME_LEN: usize = 127;

/// Characters that neither a table name nor a column name may hold: the
/// control characters up to U+000F, U+007F, the byte-order mark, and
/// `? , ' " \ / : ) ( + * % ~`.
pub open spec fn name_char_refused(c: char) -> bool {
    ||| c <= '\u{f}'
    ||| c == '\u{7f}'
    ||| c == '\u{feff}'
    ||| c == '?'
    ||| c == ','
    ||| c == '\''
    ||| c == '"'
    ||| c == '\\'
    ||| c == '/'
    ||| c == ':'
    ||| c == ')'
    ||| c == '('
    ||| c == '+'
    ||| c == '*'
    ||| c == '%'
    ||| c == '~'
}

/// The names `Buffer::table` accepts: not empty, at most `MAX_NAME_LEN`
/// bytes, no refused character, and a dot only between two characters that
/// are not dots.
pub open spec fn table_name_accepted(name: Seq<char>) -> bool {
    &&& name.len() > 0
    &&& encode_utf8(name).len() <= MAX_NAME_LEN
    &&& forall|i: int| 0 <= i < name.len() ==> !name_char_refused(#[trigger] name[i])
    &&& forall|i: int|
        0 <= i < name.len() && #[trigger] name[i] == '.' ==> 0 < i < name.len() - 1 && name[i - 1]
            != '.'
}

/// The names `Buffer::symbol` and the `Buffer::column_*` methods accept:
/// not empty, at most `MAX_NAME_LEN` bytes, no refused character, no dot
/// and no hyphen.
pub open spec fn column_name_accepted(name: Seq<char>) -> bool {
    &&& name.len() > 0
    &&& encode_utf8(name).len() <= MAX_NAME_LEN
    &&& forall|i: int|
        0 <= i < name.len() ==> !name_char_refused(#[trigger] name[i]) && name[i] != '.' && name[i]
            != '-'
}

/// A row may start: nothing has been accepted, or the last row is closed.
pub open spec fn row_may_start(ops: Seq<BufferOp>) -> bool {
    ops.len() == 0 || ops.last() is At
}

/// A symbol may follow: the row has its table and, so far, nothing but symbols.
pub open spec fn symbol_may_follow(ops: Seq<BufferOp>) -> bool {
    ops.len() > 0 && (ops.last() is Table || ops.last() is Symbol)
}

/// A column may follow: the row has its table and is not closed.
pub open spec fn column_may_follow(ops: Seq<BufferOp>) -> bool {
    ops.len() > 0 && !(ops.last() is At)
}

/// The row may be closed: it has at least one symbol or column.
pub open spec fn row_may_end(ops: Seq<BufferOp>) -> bool {
    ops.len() > 0 && !(ops.last() is At) && !(ops.last() is Table)
}

/// An encoder's buffer that was made by `Buffer::new`, and so writes the
/// text line protocol with names of at most `MAX_NAME_LEN` bytes. No other
/// kind of buffer is ever put in one.
pub struct LineBuffer {
    inner: Buffer,
}

/// `questdb::ingress::Buffer::new`: a line-protocol buffer of the given
/// version that has accepted nothing yet and has no marker.
#[verifier::external_body]
fn buffer_new(version: LineProtocol) -> (buffer: LineBuffer)
    ensures
        buffer_ops(buffer.inner) == Seq::<BufferOp>::empty(),
        buffer_marked(buffer.inner) is None,
{
    LineBuffer {
        inner: Buffer::new(
            match version {
                LineProtocol::V1 => ProtocolVersion::V1,
                LineProtocol::V2 => ProtocolVersion::V2,
                LineProtocol::V3 => ProtocolVersion::V3,
            },
        ),
    }
}

/// `Buffer::table`: accepted exactly when the name is one it accepts and a
/// row may start; then the operation is recorded. When it is refused
/// nothing changes. The marker stays.
#[verifier::external_body]
fn buffer_table(buffer: &mut LineBuffer, name: &str) -> (r: Result<(), questdb::Error>)
    ensures
        r is Ok <==> table_name_accepted(name@) && row_may_start(buffer_ops(old(buffer).inner)),
        r is Ok ==> buffer_ops(final(buffer).inner) == buffer_ops(old(buffer).inner).push(
            BufferOp::Table(name@),
        ),
        r is Err ==> buffer_ops(final(buffer).inner) == buffer_ops(old(buffer).inner),
        buffer_marked(final(buffer).inner) == buffer_marked(old(buffer).inner),
{
    buffer.inner.table(name).map(|_| ())
}

/// `Buffer::symbol`: accepted exactly when the name is one it accepts and a
/// symbol may follow; then the operation is recorded. When it is refused
/// nothing changes. The marker stays.
#[verifier::external_body]
fn buffer_symbol(buffer: &mut LineBuffer, name: &str, value: &str) -> (r: Result<
    (),
    questdb::Error,
>)
    ensures
        r is Ok <==> column_name_accepted(name@) && symbol_may_follow(
            buffer_ops(old(buffer).inner),
        ),
        r is Ok ==> buffer_ops(final(buffer).inner) == buffer_ops(old(buffer).inner).push(
            BufferOp::Symbol(name@, value@),
        ),
        r is Err ==> buffer_ops(final(buffer).inner) == buffer_ops(old(buffer).inner),
        buffer_marked(final(buffer).inner) == buffer_marked(old(buffer).inner),
{
    buffer.inner.symbol(name, value).map(|_| ())
}

/// `Buffer::column_i64`: accepted exactly when the name is one it accepts
/// and a column may follow; then the operation is recorded. When it is
/// refused nothing changes. The marker stays.
#[verifier::external_body]
fn buffer_column_i64(buffer: &mut LineBuffer, name: &str, value: i64) -> (r: Result<
    (),
    questdb::Error,
>)
    ensures
        r is Ok <==> column_name_accepted(name@) && column_may_follow(
            buffer_ops(old(buffer).inner),
        ),
        r is Ok ==> buffer_ops(final(buffer).inner) == buffer_ops(old(buffer).inner).push(
            BufferOp::ColumnI64(name@, value),
        ),
        r is Err ==> buffer_ops(final(buffer).inner) == buffer_ops(old(buffer).inner),
        buffer_marked(final(buffer).inner) == buffer_marked(old(buffer).inner),
{
    buffer.inner.column_i64(name, value).map(|_| ())
}

/// `Buffer::column_bool`: accepted exactly when the name is one it accepts
/// and a column may follow; then the operation is recorded. When it is
/// refused nothing changes. The marker stays.
#[verifier::external_body]
fn buffer_column_bool(buffer: &mut LineBuffer, name: &str, value: bool) -> (r: Result<
    (),
    questdb::Error,
>)
    ensures
        r is Ok <==> column_name_accepted(name@) && column_may_follow(
            buffer_ops(old(buffer).inner),
        ),
        r is Ok ==> buffer_ops(final(buffer).inner) == buffer_ops(old(buffer).inner).push(
            BufferOp::ColumnBool(name@, value),
        ),
        r is Err ==> buffer_ops(final(buffer).inner) == buffer_ops(old(buffer).inner),
        buffer_marked(final(buffer).inner) == buffer_marked(old(buffer).inner),
{
    buffer.inner.column_bool(name, value).map(|_| ())
}

/// `Buffer::column_str`: accepted exactly when the name is one it accepts
/// and a column may follow; then the operation is recorded. When it is
/// refused nothing changes. The marker stays.
#[verifier::external_body]
fn buffer_column_str(buffer: &mut LineBuffer, name: &str, value: &str) -> (r: Result<
    (),
    questdb::Error,
>)
    ensures
        r is Ok <==> column_name_accepted(name@) && column_may_follow(
            buffer_ops(old(buffer).inner),
        ),
        r is Ok ==> buffer_ops(final(buffer).inner) == buffer_ops(old(buffer).inner).push(
            BufferOp::ColumnStr(name@, value@),
        ),
        r is Err ==> buffer_ops(final(buffer).inner) == buffer_ops(old(buffer).inner),
        buffer_marked(final(buffer).inner) == buffer_marked(old(buffer).inner),
{
    buffer.inner.column_str(name, value).map(|_| ())
}

/// `Buffer::at` with a `TimestampNanos`: accepted exactly when the row may
/// be closed and the timestamp is not negative; then the row is closed.
/// When it is refused nothing changes. The marker stays.
#[verifier::external_body]
fn buffer_at(buffer: &mut LineBuffer, nanos: i64) -> (r: Result<(), questdb::Error>)
    ensures
        r is Ok <==> nanos >= 0 && row_may_end(buffer_ops(old(buffer).inner)),
        r is Ok ==> buffer_ops(final(buffer).inner) == buffer_ops(old(buffer).inner).push(
            BufferOp::At(nanos),
        ),
        r is Err ==> buffer_ops(final(buffer).inner) == buffer_ops(old(buffer).inner),
        buffer_marked(final(buffer).inner) == buffer_marked(old(buffer).inner),
{
    buffer.inner.at(TimestampNanos::new(nanos))
}

/// `Buffer::set_marker`: succeeds exactly when a row may start, and then a
/// marker stands at the present contents. The contents never change.
#[verifier::external_body]
fn buffer_set_marker(buffer: &mut LineBuffer) -> (r: Result<(), questdb::Error>)
    ensures
        r is Ok <==> row_may_start(buffer_ops(old(buffer).inner)),
        buffer_ops(final(buffer).inner) == buffer_ops(old(buffer).inner),
        r is Ok ==> buffer_marked(final(buffer).inner) == Some(buffer_ops(old(buffer).inner)),
{
    buffer.inner.set_marker()
}

/// `Buffer::rewind_to_marker`: succeeds exactly when a marker is set, and
/// then the buffer is back at what the marker stood at and the marker is
/// gone; on failure nothing changes.
#[verifier::external_body]
fn buffer_rewind_to_marker(buffer: &mut LineBuffer) -> (r: Result<(), questdb::Error>)
    ensures
        r is Ok <==> buffer_marked(old(buffer).inner) is Some,
        r is Ok ==> buffer_marked(old(buffer).inner) == Some(buffer_ops(final(buffer).inner))
            && buffer_marked(final(buffer).inner) is None,
        r is Err ==> buffer_ops(final(buffer).inner) == buffer_ops(old(buffer).inner),
{
    buffer.inner.rewind_to_marker()
}

/// `Buffer::clear`: the buffer has accepted nothing and has no marker.
#[verifier::external_body]
fn buffer_clear(buffer: &mut LineBuffer)
    ensures
        buffer_ops(final(buffer).inner) == Seq::<BufferOp>::empty(),
        buffer_marked(final(buffer).inner) is None,
{
    buffer.inner.clear()
}

/// The operation that writes a tag.
pub open spec fn tag_op(tag: TagView) -> BufferOp {
    BufferOp::Symbol(tag.name, tag.value)
}

/// The operation that writes a field.
pub open spec fn field_op(field: FieldView) -> BufferOp {
    match field.value {
        FieldValueView::Integer(i) => BufferOp::ColumnI64(field.name, i),
        FieldValueView::Boolean(b) => BufferOp::ColumnBool(field.name, b),
        FieldValueView::Text(s) => BufferOp::ColumnStr(field.name, s),
    }
}

/// The operations that write one row: its table, its tags, its fields, its timestamp.
pub open spec fn row_ops(row: RowView) -> Seq<BufferOp> {
    seq![BufferOp::Table(row.table)] + row.tags.map_values(|t: TagView| tag_op(t))
        + row.fields.map_values(|f: FieldView| field_op(f)) + seq![BufferOp::At(row.timestamp)]
}

/// The operations that write `rows`, one row after the other.
pub open spec fn rows_ops(rows: Seq<RowView>) -> Seq<BufferOp>
    decreases rows.len(),
{
    if rows.len() == 0 {
        Seq::empty()
    } else {
        rows_ops(rows.drop_last()) + row_ops(rows.last())
    }
}

/// The encoder takes the row: it accepts the table's name and every
/// column's name, and the row has at least one column.
pub open spec fn row_accepted(row: RowView) -> bool {
    &&& table_name_accepted(row.table)
    &&& forall|i: int| 0 <= i < row.tags.len() ==> column_name_accepted(#[trigger] row.tags[i].name)
    &&& forall|i: int|
        0 <= i < row.fields.len() ==> column_name_accepted(#[trigger] row.fields[i].name)
    &&& row.tags.len() + row.fields.len() > 0
}

/// What `append` answers for a row, given the rows already held.
pub open spec fn append_result(held: Seq<RowView>, row: RowView) -> Result<(), EncodeError> {
    if row.timestamp < 0 {
        Err(EncodeError::NegativeTimestamp)
    } else if held.len() >= usize::MAX {
        Err(EncodeError::Full)
    } else if !row_accepted(row) {
        Err(EncodeError::Rejected)
    } else {
        Ok(())
    }
}

/// The rows held after `append` has answered `r`: one more on success, the same otherwise.
pub open spec fn append_outcome(
    before: Seq<RowView>,
    row: RowView,
    r: Result<(), EncodeError>,
    after: Seq<RowView>,
) -> bool {
    match r {
        Ok(()) => after == before.push(row),
        Err(_) => after == before,
    }
}

/// A buffer of whole rows.
pub struct RowBuffer {
    encoder: LineBuffer,
    count: usize,
    rows: Ghost<Seq<RowView>>,
}

impl View for RowBuffer {
    type V = Seq<RowView>;

    closed spec fn view(&self) -> Seq<RowView> {
        self.rows@
    }
}

impl RowBuffer {
    /// The encoder has accepted exactly the operations of the rows held, and
    /// the row count is their number.
    pub closed spec fn wf(&self) -> bool {
        &&& buffer_ops(self.encoder.inner) == rows_ops(self.rows@)
        &&& self.count == self.rows@.len()
    }

    /// An empty buffer that writes the given protocol version.
    pub fn new(version: LineProtocol) -> (r: RowBuffer)
        ensures
            r.wf(),
            r@ == Seq::<RowView>::empty(),
    {
        RowBuffer { encoder: buffer_new(version), count: 0, rows: Ghost(Seq::empty()) }
    }

    /// Number of rows held.
    pub fn len(&self) -> (r: usize)
        requires
            self.wf(),
        ensures
            r == self@.len(),
    {
        self.count
    }

    /// The encoder's buffer, for handing to a sender: it has accepted
    /// exactly the operations that write the rows held.
    pub fn inner(&self) -> (r: &Buffer)
        requires
            self.wf(),
        ensures
            buffer_ops(*r) == rows_ops(self@),
    {
        &self.encoder.inner
    }

    /// Empties the buffer.
    pub fn clear(&mut self)
        ensures
            final(self).wf(),
            final(self)@ == Seq::<RowView>::empty(),
    {
        buffer_clear(&mut self.encoder);
        self.count = 0;
        self.rows = Ghost(Seq::empty());
    }

    /// Writes the operations of `row`, stopping at the first that is refused.
    fn write(&mut self, row: &Row) -> (written: bool)
        requires
            row_may_start(buffer_ops(old(self).encoder.inner)),
            row@.timestamp >= 0,
        ensures
            written <==> row_accepted(row@),
            written ==> buffer_ops(final(self).encoder.inner) == buffer_ops(
                old(self).encoder.inner,
            ) + row_ops(row@),
            buffer_marked(final(self).encoder.inner) == buffer_marked(old(self).encoder.inner),
            final(self).count == old(self).count,
            final(self).rows == old(self).rows,
    {
        let ghost start = buffer_ops(self.encoder.inner);
        let ghost tag_ops = row@.tags.map_values(|t: TagView| tag_op(t));
        let ghost field_ops = row@.fields.map_values(|f: FieldView| field_op(f));
        if buffer_table(&mut self.encoder, row.table.as_str()).is_err() {
            return false;
        }
        let mut i: usize = 0;
        while i < row.tags.len()
            invariant
                i <= row.tags.len(),
                tag_ops == row@.tags.map_values(|t: TagView| tag_op(t)),
                table_name_accepted(row@.table),
                forall|k: int| 0 <= k < i ==> column_name_accepted(#[trigger] row@.tags[k].name),
                buffer_ops(self.encoder.inner) == start.push(BufferOp::Table(row@.table))
                    + tag_ops.take(i as int),
                buffer_marked(self.encoder.inner) == buffer_marked(old(self).encoder.inner),
                self.count == old(self).count,
                self.rows == old(self).rows,
            decreases row.tags.len() - i,
        {
            let tag: &Tag = &row.tags[i];
            proof {
                let ops = buffer_ops(self.encoder.inner);
                if i > 0 {
                    assert(ops.last() == tag_ops[i as int - 1]);
                } else {
                    assert(ops.last() == BufferOp::Table(row@.table));
                }
                assert(symbol_may_follow(ops));
            }
            if buffer_symbol(&mut self.encoder, tag.name.as_str(), tag.value.as_str()).is_err() {
                proof {
                    assert(row@.tags[i as int].name == tag.name@);
                }
                return false;
            }
            proof {
                assert(tag_ops.take(i as int + 1) =~= tag_ops.take(i as int).push(tag_op(tag@)));
                assert(row@.tags[i as int].name == tag.name@);
            }
            i = i + 1;
        }
        let ghost tagged = buffer_ops(self.encoder.inner);
        proof {
            assert(tag_ops.take(row@.tags.len() as int) =~= tag_ops);
            assert(tagged.len() > 0 && !(tagged.last() is At)) by {
                if row@.tags.len() > 0 {
                    assert(tagged.last() == tag_ops[row@.tags.len() - 1]);
                } else {
                    assert(tagged.last() == BufferOp::Table(row@.table));
                }
            }
            assert(row@.tags.len() > 0 ==> tagged.last() is Symbol) by {
                if row@.tags.len() > 0 {
                    assert(tagged.last() == tag_ops[row@.tags.len() - 1]);
                }
            }
        }
        let mut j: usize = 0;
        while j < row.fields.len()
            invariant
                j <= row.fields.len(),
                field_ops == row@.fields.map_values(|f: FieldView| field_op(f)),
                forall|k: int| 0 <= k < j ==> column_name_accepted(#[trigger] row@.fields[k].name),
                buffer_ops(self.encoder.inner) == tagged + field_ops.take(j as int),
                tagged.len() > 0,
                !(tagged.last() is At),
                buffer_marked(self.encoder.inner) == buffer_marked(old(self).encoder.inner),
                self.count == old(self).count,
                self.rows == old(self).rows,
            decreases row.fields.len() - j,
        {
            let field: &Field = &row.fields[j];
            proof {
                let ops = buffer_ops(self.encoder.inner);
                if j > 0 {
                    assert(ops.last() == field_ops[j as int - 1]);
                } else {
                    assert(ops =~= tagged);
                }
                assert(column_may_follow(ops));
                assert(row@.fields[j as int].name == field.name@);
            }
            let accepted = match &field.value {
                FieldValue::Integer(v) => buffer_column_i64(
                    &mut self.encoder,
                    field.name.as_str(),
                    *v,
                ).is_ok(),
                FieldValue::Boolean(v) => buffer_column_bool(
                    &mut self.encoder,
                    field.name.as_str(),
                    *v,
                ).is_ok(),
                FieldValue::Text(v) => buffer_column_str(
                    &mut self.encoder,
                    field.name.as_str(),
                    v.as_str(),
                ).is_ok(),
            };
            if !accepted {
                return false;
            }
            proof {
                assert(field_ops.take(j as int + 1) =~= field_ops.take(j as int).push(
                    field_op(field@),
                ));
            }
            j = j + 1;
        }
        proof {
            assert(field_ops.take(row@.fields.len() as int) =~= field_ops);
            let ops = buffer_ops(self.encoder.inner);
            if row@.fields.len() > 0 {
                assert(ops.last() == field_ops[row@.fields.len() - 1]);
                assert(row_may_end(ops));
            } else {
                assert(ops =~= tagged);
                assert(row_may_end(ops) <==> row@.tags.len() > 0);
            }
        }
        if buffer_at(&mut self.encoder, row.timestamp).is_err() {
            return false;
        }
        proof {
            assert(buffer_ops(self.encoder.inner) =~= start + row_ops(row@));
        }
        true
    }

    /// Adds `row` to the buffer, all of it or nothing.
    ///
    /// A row with a negative timestamp is never handed to the encoder. When
    /// the encoder refuses any part of the row, the buffer goes back to the
    /// rows it held before.
    pub fn append(&mut self, row: &Row) -> (r: Result<(), EncodeError>)
        requires
            old(self).wf(),
        ensures
            final(self).wf(),
            r == append_result(old(self)@, row@),
            append_outcome(old(self)@, row@, r, final(self)@),
    {
        if row.timestamp < 0 {
            return Err(EncodeError::NegativeTimestamp);
        }
        if self.count == usize::MAX {
            return Err(EncodeError::Full);
        }
        proof {
            lemma_rows_end_closed(self.rows@);
        }
        let marked = buffer_set_marker(&mut self.encoder);
        assert(marked is Ok);
        if self.write(row) {
            self.count = self.count + 1;
            self.rows = Ghost(self.rows@.push(row@));
            proof {
                assert(self.rows@.drop_last() =~= old(self).rows@);
            }
            Ok(())
        } else {
            let rewound = buffer_rewind_to_marker(&mut self.encoder);
            assert(rewound is Ok);
            Err(EncodeError::Rejected)
        }
    }
}

/// After whole rows, a new row may start.
pub proof fn lemma_rows_end_closed(rows: Seq<RowView>)
    ensures
        row_may_start(rows_ops(rows)),
{
    if rows.len() > 0 {
        let ops = rows_ops(rows);
        assert(ops.last() == BufferOp::At(rows.last().timestamp));
    }
}

/// A name of lower-case letters and underscores, not empty and at most 127 long.
pub open spec fn plain_name(name: Seq<char>) -> bool {
    &&& 0 < name.len() <= 127
    &&& forall|i: int|
        0 <= i < name.len() ==> ('a' <= #[trigger] name[i] && name[i] <= 'z') || name[i] == '_'
}

/// The encoder accepts every plain name, for a table and for a column.
pub proof fn lemma_plain_name_accepted(name: Seq<char>)
    requires
        plain_name(name),
    ensures
        table_name_accepted(name),
        column_name_accepted(name),
{
    assert(vstd::utf8::is_ascii_chars(name)) by {
        assert forall|i: int| 0 <= i < name.len() implies '\0' <= #[trigger] name[i] && name[i]
            <= '\u{7f}' by {
            assert(('a' <= name[i] && name[i] <= 'z') || name[i] == '_');
        }
    }
    vstd::utf8::is_ascii_chars_encode_utf8(name);
    assert forall|i: int| 0 <= i < name.len() implies !name_char_refused(
        #[trigger] name[i],
    ) && name[i] != '.' && name[i] != '-' by {
        assert(('a' <= name[i] && name[i] <= 'z') || name[i] == '_');
    }
}

/// The encoder accepts the row of every record: all table and column names
/// in use are plain, and every row has a column.
pub proof fn lemma_record_rows_accepted(log: Logs)
    ensures
        row_accepted(row_view_of(log)),
{
    reveal_strlit("order_logs");
    reveal_strlit("balance_logs");
    reveal_strlit("holding_logs");
    reveal_strlit("trade_logs");
    reveal_strlit("orderbook_snapshots");
    reveal_strlit("instrument");
    reveal_strlit("side");
    reveal_strlit("event_type");
    reveal_strlit("severity");
    reveal_strlit("reason");
    reveal_strlit("event_id");
    reveal_strlit("order_id");
    reveal_strlit("user_id");
    reveal_strlit("price");
    reveal_strlit("shares_qty");
    reveal_strlit("delta_reserved_balance");
    reveal_strlit("delta_available_balance");
    reveal_strlit("delta_reserved_holding");
    reveal_strlit("delta_available_holding");
    reveal_strlit("buyer_order_id");
    reveal_strlit("seller_order_id");
    reveal_strlit("quantity");
    reveal_strlit("is_buyer_maker");
    reveal_strlit("bids");
    reveal_strlit("asks");
    let row = row_view_of(log);
    lemma_plain_name_accepted(row.table);
    assert forall|i: int| 0 <= i < row.tags.len() implies column_name_accepted(
        #[trigger] row.tags[i].name,
    ) by {
        lemma_plain_name_accepted(row.tags[i].name);
    }
    assert forall|i: int| 0 <= i < row.fields.len() implies column_name_accepted(
        #[trigger] row.fields[i].name,
    ) by {
        lemma_plain_name_accepted(row.fields[i].name);
    }
}

} // verus!
