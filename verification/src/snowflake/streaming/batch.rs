//! Compressed batches of rows.
use vstd::prelude::*;
use vstd::utf8::encode_utf8;

use crate::cell::{Cell, TableRow};
use crate::schema::ColumnSchema;
use crate::snowflake::encoding::{row_line, serialize_row, CdcMeta, CdcOperation};
use crate::snowflake::error::{Error, SnowflakeResult};
use crate::snowflake::streaming::offset_token::OffsetToken;
use crate::event::sequence_text;
use crate::text::{cat2, cat5, decimal, decimal_of};

verus! {

/// Snowflake Streaming API hard limit on the compressed HTTP request body.
pub const MAX_COMPRESSED_BYTES: usize = 4_194_304;

/// Split when compressed output reaches this threshold.
pub const BATCH_SPLIT_THRESHOLD: usize = 3_800_000;

/// Max bytes written to the compressing encoder before forcing a flush.
pub const MAX_UNFLUSHED_BYTES: usize = 131_072;

/// Max serialized (uncompressed) size of a single row.
///
/// Rejects degenerate TOAST rows before they enter the encoder.
pub const MAX_UNCOMPRESSED_ROW_BYTES: usize = 2_097_152;

/// Compression level.
pub const ZSTD_COMPRESSION_LEVEL: i32 = 3;

/// A `zstd::stream::write::Encoder` that collects its output in memory.
#[verifier::external_body]
pub struct ZstdEncoder {
    encoder: zstd::stream::write::Encoder<'static, Vec<u8>>,
}

/// What an encoder was asked to do, in order: `Some` stands for bytes that it was given, `None` for
/// a flush.
pub uninterp spec fn zstd_log(encoder: ZstdEncoder) -> Seq<Option<Seq<u8>>>;

/// The compression level that an encoder was made with.
pub uninterp spec fn zstd_level(encoder: ZstdEncoder) -> int;

/// The number of compressed bytes that an encoder has put out.
pub uninterp spec fn zstd_output_len(encoder: ZstdEncoder) -> nat;

/// What `write_all` says is wrong, if anything, when an encoder of the level that was asked to do
/// this is given the bytes.
pub uninterp spec fn zstd_write_error(
    level: int,
    log: Seq<Option<Seq<u8>>>,
    bytes: Seq<u8>,
) -> Option<Seq<char>>;

/// How many bytes an encoder of the level that was asked to do this has put out once it is flushed,
/// or what `flush` says is wrong.
pub uninterp spec fn zstd_flushed(level: int, log: Seq<Option<Seq<u8>>>) -> Result<nat, Seq<char>>;

/// All that an encoder of the level that was asked to do this puts out, or what `finish` says is
/// wrong.
pub uninterp spec fn zstd_finished(level: int, log: Seq<Option<Seq<u8>>>) -> Result<
    Seq<u8>,
    Seq<char>,
>;

/// The bytes that `zstd::decode_all` reads from compressed bytes.
pub uninterp spec fn zstd_decoded(compressed: Seq<u8>) -> Seq<u8>;

/// The bytes that an encoder was given, one after another.
pub open spec fn written(log: Seq<Option<Seq<u8>>>) -> Seq<u8>
    decreases log.len(),
{
    if log.len() == 0 {
        Seq::empty()
    } else {
        match log.last() {
            Some(bytes) => written(log.drop_last()) + bytes,
            None => written(log.drop_last()),
        }
    }
}

impl ZstdEncoder {
    /// Makes an encoder, by `zstd::stream::write::Encoder::new` over an empty vector. The levels
    /// from 1 to 22 are valid. A new encoder was asked to do nothing and has put out nothing, and
    /// it compresses at the given level.
    #[verifier::external_body]
    fn new(level: i32) -> (r: Self)
        requires
            1 <= level <= 22,
        ensures
            zstd_log(r) == Seq::<Option<Seq<u8>>>::empty(),
            zstd_output_len(r) == 0,
            zstd_level(r) == level,
    {
        let encoder = zstd::stream::write::Encoder::new(Vec::new(), level);
        ZstdEncoder { encoder: encoder.expect("a valid level makes an encoder") }
    }

    /// Gives bytes to the encoder, by `Write::write_all`. The output goes to memory, so whether it
    /// fails, and with what text, depends on level, history and bytes alone. On success the encoder
    /// was given all bytes; an error leaves open how many were taken. The level stays.
    #[verifier::external_body]
    fn write_all(&mut self, bytes: &[u8]) -> (r: Result<(), String>)
        ensures
            match r {
                Ok(_) => {
                    &&& zstd_write_error(
                        zstd_level(*old(self)),
                        zstd_log(*old(self)),
                        bytes@,
                    ) is None
                    &&& zstd_log(*final(self)) == zstd_log(*old(self)).push(Some(bytes@))
                },
                Err(e) => zstd_write_error(
                    zstd_level(*old(self)),
                    zstd_log(*old(self)),
                    bytes@,
                ) == Some(e@),
            },
            zstd_level(*final(self)) == zstd_level(*old(self)),
    {
        std::io::Write::write_all(&mut self.encoder, bytes).map_err(|e| e.to_string())
    }

    /// Has the encoder put out what it holds back, by `Write::flush`. How much it has then put out,
    /// or with what text it fails, depends on level and history alone. The level stays.
    #[verifier::external_body]
    fn flush(&mut self) -> (r: Result<(), String>)
        ensures
            zstd_level(*final(self)) == zstd_level(*old(self)),
            match r {
                Ok(_) => {
                    &&& zstd_flushed(zstd_level(*old(self)), zstd_log(*old(self))) == Ok::<
                        nat,
                        Seq<char>,
                    >(zstd_output_len(*final(self)))
                    &&& zstd_log(*final(self)) == zstd_log(*old(self)).push(None)
                },
                Err(e) => zstd_flushed(zstd_level(*old(self)), zstd_log(*old(self))) == Err::<
                    nat,
                    Seq<char>,
                >(e@),
            },
    {
        std::io::Write::flush(&mut self.encoder).map_err(|e| e.to_string())
    }

    /// Returns how many bytes the encoder has put out: the length of the vector that `get_ref`
    /// returns.
    #[verifier::external_body]
    fn output_len(&self) -> (r: usize)
        ensures
            r == zstd_output_len(*self),
    {
        self.encoder.get_ref().len()
    }

    /// Ends the stream, by `finish`. What is put out in all, or with what text it fails, depends on
    /// level and history alone; the output decodes to what the encoder was given.
    #[verifier::external_body]
    fn finish(self) -> (r: Result<Vec<u8>, String>)
        ensures
            match r {
                Ok(compressed) => {
                    &&& zstd_finished(zstd_level(self), zstd_log(self)) == Ok::<
                        Seq<u8>,
                        Seq<char>,
                    >(compressed@)
                    &&& zstd_decoded(compressed@) == written(zstd_log(self))
                },
                Err(e) => zstd_finished(zstd_level(self), zstd_log(self)) == Err::<
                    Seq<u8>,
                    Seq<char>,
                >(e@),
            },
    {
        self.encoder.finish().map_err(|e| e.to_string())
    }
}

/// The byte buffer of the `bytes` crate.
#[verifier::external_type_specification]
#[verifier::external_body]
pub struct ExBytes(bytes::Bytes);

/// The bytes that a buffer holds.
pub uninterp spec fn bytes_content(bytes: bytes::Bytes) -> Seq<u8>;

/// Makes a buffer, by `bytes::Bytes::from`. It holds the bytes of the vector.
#[verifier::external_body]
fn bytes_from(vec: Vec<u8>) -> (r: bytes::Bytes)
    ensures
        bytes_content(r) == vec@,
{
    bytes::Bytes::from(vec)
}

/// Returns the number of bytes in a buffer, by `bytes::Bytes::len`.
#[verifier::external_body]
fn bytes_len(bytes: &bytes::Bytes) -> (r: usize)
    ensures
        r == bytes_content(*bytes).len(),
{
    bytes.len()
}

/// Batch of rows ready to be pushed to the Streaming API.
pub struct RowBatch {
    data: bytes::Bytes,
    row_count: usize,
    offset: OffsetToken,
}

/// What a batch holds.
pub struct BatchModel {
    /// The compressed payload.
    pub payload: Seq<u8>,
    /// The number of rows.
    pub rows: nat,
    /// The text of the last row's offset token.
    pub token: Seq<char>,
}

impl View for RowBatch {
    type V = BatchModel;

    open spec fn view(&self) -> BatchModel {
        BatchModel { payload: self.payload(), rows: self.rows(), token: self.token().0@ }
    }
}

/// What batches hold.
pub open spec fn batch_models(batches: Seq<RowBatch>) -> Seq<BatchModel> {
    Seq::new(batches.len(), |i: int| batches[i]@)
}

impl RowBatch {
    /// The compressed payload.
    pub closed spec fn payload(&self) -> Seq<u8> {
        bytes_content(self.data)
    }

    /// The number of rows.
    pub closed spec fn rows(&self) -> nat {
        self.row_count as nat
    }

    /// The offset token of the last row.
    pub closed spec fn token(&self) -> OffsetToken {
        self.offset
    }

    /// Payload bytes.
    pub fn bytes(&self) -> (r: &bytes::Bytes)
        ensures
            bytes_content(*r) == self.payload(),
    {
        &self.data
    }

    /// Byte length of the payload.
    pub fn size(&self) -> (r: usize)
        ensures
            r == self.payload().len(),
    {
        bytes_len(&self.data)
    }

    /// Number of rows in this batch.
    pub fn row_count(&self) -> (r: usize)
        ensures
            r == self.rows(),
    {
        self.row_count
    }

    /// Offset token of the last row in this batch.
    pub fn offset(&self) -> (r: &OffsetToken)
        ensures
            *r == self.token(),
    {
        &self.offset
    }
}

/// A row that was added: its line and its offset token.
pub struct AddedRow {
    /// The line, in bytes.
    pub line: Seq<u8>,
    /// The text of the token.
    pub token: Seq<char>,
}

/// The lines of rows, one after another.
pub open spec fn lines(rows: Seq<AddedRow>) -> Seq<u8>
    decreases rows.len(),
{
    if rows.len() == 0 {
        Seq::empty()
    } else {
        lines(rows.drop_last()) + rows.last().line
    }
}

/// Whether a batch holds exactly the rows: it decodes to their lines, counts them and carries the
/// offset token of the last.
pub open spec fn holds(batch: RowBatch, rows: Seq<AddedRow>) -> bool {
    &&& batch.rows() == rows.len()
    &&& rows.len() > 0
    &&& zstd_decoded(batch.payload()) == lines(rows)
    &&& batch.token().0@ == rows.last().token
}

/// Whether the batches together hold exactly the rows, in order and none of them empty.
pub open spec fn batched(batches: Seq<RowBatch>, rows: Seq<AddedRow>) -> bool
    decreases batches.len(),
{
    if batches.len() == 0 {
        rows.len() == 0
    } else {
        let cut = rows.len() - batches.last().rows();
        &&& 0 <= cut
        &&& holds(batches.last(), rows.skip(cut))
        &&& batched(batches.drop_last(), rows.take(cut))
    }
}

/// The line of a row in bytes, or why it cannot be sent.
pub open spec fn encoded_row(
    cols: Seq<ColumnSchema>,
    cells: Seq<Cell>,
    operation: CdcOperation,
    sequence: Seq<char>,
) -> Result<Seq<u8>, Seq<char>> {
    match row_line(cols, cells, operation, sequence) {
        Err(e) => Err(e),
        Ok(line) => {
            let n = encode_utf8(line).len();
            if n > MAX_UNCOMPRESSED_ROW_BYTES {
                Err(
                    "single row exceeds "@ + decimal(MAX_UNCOMPRESSED_ROW_BYTES as nat)
                        + "B limit ("@ + decimal(n) + "B uncompressed)"@,
                )
            } else {
                Ok(encode_utf8(line))
            }
        },
    }
}

/// How far the batches of a table have come.
pub struct BuilderModel {
    /// Finished batches.
    pub done: Seq<BatchModel>,
    /// What the compressor of the batch that is being built was asked to do.
    pub log: Seq<Option<Seq<u8>>>,
    /// The number of rows in the batch that is being built.
    pub pending: nat,
    /// The bytes that were written since the compressor was flushed.
    pub unflushed: nat,
    /// The text of the last row's offset token, if the batch that is being built has a row.
    pub token: Seq<char>,
}

/// Batches without a row.
pub open spec fn nothing_built() -> BuilderModel {
    BuilderModel {
        done: Seq::empty(),
        log: Seq::empty(),
        pending: 0,
        unflushed: 0,
        token: sequence_text(0, 0),
    }
}

/// The batch that is being built is ended and another is begun, or why it cannot be ended.
pub open spec fn batch_ended(m: BuilderModel) -> Result<BuilderModel, Seq<char>> {
    match zstd_finished(ZSTD_COMPRESSION_LEVEL as int, m.log) {
        Err(e) => Err("zstd finish: "@ + e),
        Ok(payload) => Ok(
            BuilderModel {
                done: m.done.push(BatchModel { payload, rows: m.pending, token: m.token }),
                ..nothing_built()
            },
        ),
    }
}

/// Room is made for a line of `len` bytes: from `MAX_UNFLUSHED_BYTES` on the compressor is flushed,
/// and a batch that would grow over the threshold is ended.
pub open spec fn room_made(m: BuilderModel, len: nat) -> Result<BuilderModel, Seq<char>> {
    if m.unflushed + len < MAX_UNFLUSHED_BYTES {
        Ok(m)
    } else {
        match zstd_flushed(ZSTD_COMPRESSION_LEVEL as int, m.log) {
            Err(e) => Err("zstd flush: "@ + e),
            Ok(size) => {
                let flushed = BuilderModel { log: m.log.push(None), unflushed: 0, ..m };
                if m.pending > 0 && size + len > BATCH_SPLIT_THRESHOLD {
                    batch_ended(flushed)
                } else {
                    Ok(flushed)
                }
            },
        }
    }
}

/// A row is added, or why it cannot be compressed.
pub open spec fn row_added(m: BuilderModel, row: AddedRow) -> Result<BuilderModel, Seq<char>> {
    match room_made(m, row.line.len()) {
        Err(e) => Err(e),
        Ok(room) => match zstd_write_error(ZSTD_COMPRESSION_LEVEL as int, room.log, row.line) {
            Some(e) => Err("zstd write: "@ + e),
            None => Ok(
                BuilderModel {
                    done: room.done,
                    log: room.log.push(Some(row.line)),
                    pending: room.pending + 1,
                    unflushed: room.unflushed + row.line.len(),
                    token: row.token,
                },
            ),
        },
    }
}

/// How far the batches have come once all rows are added in order, or why the first row that cannot
/// be compressed cannot.
pub open spec fn built(rows: Seq<AddedRow>) -> Result<BuilderModel, Seq<char>>
    decreases rows.len(),
{
    if rows.len() == 0 {
        Ok(nothing_built())
    } else {
        match built(rows.drop_last()) {
            Err(e) => Err(e),
            Ok(m) => row_added(m, rows.last()),
        }
    }
}

/// A batch of the payload, or why it cannot be sent: it is larger than the API takes.
pub open spec fn sendable(payload: Seq<u8>) -> Result<Seq<u8>, Seq<char>> {
    if payload.len() > MAX_COMPRESSED_BYTES {
        Err(
            "compressed batch exceeds "@ + decimal(MAX_COMPRESSED_BYTES as nat) + "B API limit ("@
                + decimal(payload.len()) + "B compressed)"@,
        )
    } else {
        Ok(payload)
    }
}

/// The batches, the one that is being built included, or why that one cannot be ended or sent.
pub open spec fn all_batches(m: BuilderModel) -> Result<Seq<BatchModel>, Seq<char>> {
    if m.pending == 0 {
        Ok(m.done)
    } else {
        match zstd_finished(ZSTD_COMPRESSION_LEVEL as int, m.log) {
            Err(e) => Err("zstd finish: "@ + e),
            Ok(payload) => match sendable(payload) {
                Err(e) => Err(e),
                Ok(payload) => Ok(
                    m.done.push(BatchModel { payload, rows: m.pending, token: m.token }),
                ),
            },
        }
    }
}

/// The batches of rows, or why they cannot be made.
pub open spec fn batches_for(rows: Seq<AddedRow>) -> Result<Seq<BatchModel>, Seq<char>> {
    match built(rows) {
        Err(e) => Err(e),
        Ok(m) => all_batches(m),
    }
}

/// Makes the error of a compressor that could not take a row, from what it says.
pub fn write_failure(reason: &str) -> (r: Error)
    ensures
        r matches Error::Encoding(text) && text@ == "zstd write: "@ + reason@,
{
    Error::Encoding(cat2("zstd write: ", reason))
}

/// Makes the error of a compressor that could not be flushed, from what it says.
pub fn flush_failure(reason: &str) -> (r: Error)
    ensures
        r matches Error::Encoding(text) && text@ == "zstd flush: "@ + reason@,
{
    Error::Encoding(cat2("zstd flush: ", reason))
}

/// Makes the error of a compressor that could not end a batch, from what it says.
pub fn finish_failure(reason: &str) -> (r: Error)
    ensures
        r matches Error::Encoding(text) && text@ == "zstd finish: "@ + reason@,
{
    Error::Encoding(cat2("zstd finish: ", reason))
}

/// Returns the compressed bytes of the last batch, unless they are more than the API takes.
pub fn within_limit(compressed: Vec<u8>) -> (r: SnowflakeResult<Vec<u8>>)
    ensures
        match sendable(compressed@) {
            Ok(_) => r == Ok::<Vec<u8>, Error>(compressed),
            Err(e) => r matches Err(Error::Encoding(text)) && text@ == e,
        },
{
    let size: usize = compressed.len();
    if size <= MAX_COMPRESSED_BYTES {
        return Ok(compressed);
    }
    let limit = decimal_of(MAX_COMPRESSED_BYTES as u128);
    let shown = decimal_of(size as u128);
    Err(
        Error::Encoding(
            cat5(
                "compressed batch exceeds ",
                limit.as_str(),
                "B API limit (",
                shown.as_str(),
                "B compressed)",
            ),
        ),
    )
}

/// Returns whether the compressor is to be flushed before a row is added.
pub fn needs_flush(input_since_flush: usize, row_len: usize) -> (r: bool)
    requires
        row_len <= MAX_UNCOMPRESSED_ROW_BYTES,
    ensures
        r == (input_since_flush + row_len >= MAX_UNFLUSHED_BYTES),
{
    input_since_flush >= MAX_UNFLUSHED_BYTES || input_since_flush + row_len >= MAX_UNFLUSHED_BYTES
}

/// Returns whether a flushed batch is to be ended before a row is added.
pub fn needs_split(row_count: usize, compressed_len: usize, row_len: usize) -> (r: bool)
    requires
        row_len <= MAX_UNCOMPRESSED_ROW_BYTES,
    ensures
        r == (row_count > 0 && compressed_len + row_len > BATCH_SPLIT_THRESHOLD),
{
    row_count > 0 && compressed_len > BATCH_SPLIT_THRESHOLD - row_len
}

/// Builds compressed row batches with streaming zstd compression.
///
/// Rows are serialized into a scratch buffer first, then written to the zstd
/// encoder. When the compressed output approaches `BATCH_SPLIT_THRESHOLD`,
/// the current batch is finished and a new encoder is started.
pub struct RowBatchBuilder {
    encoder: ZstdEncoder,
    scratch: Vec<u8>,
    current_row_count: usize,
    current_offset: OffsetToken,
    input_since_flush: usize,
    batches: Vec<RowBatch>,
    added: Ghost<Seq<AddedRow>>,
}

impl RowBatchBuilder {
    /// The rows that were added.
    pub closed spec fn rows(&self) -> Seq<AddedRow> {
        self.added@
    }

    /// The number of rows in the batch that is being built.
    pub closed spec fn pending(&self) -> nat {
        self.current_row_count as nat
    }

    /// How far the batches have come.
    pub closed spec fn state(&self) -> BuilderModel {
        BuilderModel {
            done: batch_models(self.batches@),
            log: zstd_log(self.encoder),
            pending: self.current_row_count as nat,
            unflushed: self.input_since_flush as nat,
            token: self.current_offset.0@,
        }
    }

    /// The batches have come as far as the rows that were added say. Finished batches and the
    /// compressor together hold exactly these rows, and the compressor works at the set level.
    pub closed spec fn wf(&self) -> bool {
        &&& built(self.added@) == Ok::<BuilderModel, Seq<char>>(self.state())
        &&& self.holds_its_rows()
    }

    spec fn holds_its_rows(&self) -> bool {
        let cut = self.added@.len() - self.current_row_count;
        &&& 0 <= cut
        &&& batched(self.batches@, self.added@.take(cut))
        &&& written(zstd_log(self.encoder)) == lines(self.added@.skip(cut))
        &&& zstd_level(self.encoder) == ZSTD_COMPRESSION_LEVEL
        &&& self.current_row_count > 0 ==> self.current_offset.0@ == self.added@.last().token
        &&& self.input_since_flush <= MAX_UNCOMPRESSED_ROW_BYTES
    }

    /// Creates a builder without rows.
    pub fn new() -> (r: Self)
        ensures
            r.wf(),
            r.rows() == Seq::<AddedRow>::empty(),
            r.pending() == 0,
            r.state() == nothing_built(),
    {
        let r = RowBatchBuilder {
            encoder: ZstdEncoder::new(ZSTD_COMPRESSION_LEVEL),
            scratch: Vec::new(),
            current_row_count: 0,
            current_offset: OffsetToken::zero(),
            input_since_flush: 0,
            batches: Vec::new(),
            added: Ghost(Seq::empty()),
        };
        proof {
            assert(r.added@.take(0) =~= Seq::<AddedRow>::empty());
            assert(r.added@.skip(0) =~= Seq::<AddedRow>::empty());
            assert(batch_models(r.batches@) =~= Seq::<BatchModel>::empty());
        }
        r
    }

    /// Append a row.
    ///
    /// Automatically creates a new batch when the compressed output approaches
    /// the API limit.
    pub fn push_row(
        &mut self,
        cols: &[ColumnSchema],
        row: &TableRow,
        cdc: CdcMeta<'_>,
        offset: &OffsetToken,
    ) -> (r: SnowflakeResult<()>)
        requires
            old(self).wf(),
            old(self).pending() < usize::MAX,
        ensures
            match encoded_row(cols@, row.values@, cdc.operation, cdc.sequence@) {
                Err(e) => {
                    &&& r matches Err(Error::Encoding(f)) && f@ == e
                    &&& final(self).wf()
                    &&& final(self).rows() == old(self).rows()
                    &&& final(self).pending() == old(self).pending()
                    &&& final(self).state() == old(self).state()
                },
                Ok(line) => {
                    let rows = old(self).rows().push(AddedRow { line, token: offset.0@ });
                    match built(rows) {
                        Err(e) => r matches Err(Error::Encoding(f)) && f@ == e,
                        Ok(m) => {
                            &&& r is Ok
                            &&& final(self).wf()
                            &&& final(self).rows() == rows
                            &&& final(self).pending() <= old(self).pending() + 1
                            &&& final(self).state() == m
                        },
                    }
                },
            },
    {
        self.scratch.clear();
        match serialize_row(&mut self.scratch, cols, row, cdc) {
            Ok(_) => {},
            Err(e) => {
                return Err(e);
            },
        }
        let ghost line = self.scratch@;
        let row_len: usize = self.scratch.len();
        proof {
            assert(Ok::<Seq<char>, Seq<char>>(row_line(
                cols@,
                row.values@,
                cdc.operation,
                cdc.sequence@,
            )->Ok_0) == row_line(cols@, row.values@, cdc.operation, cdc.sequence@));
            assert(line =~= encode_utf8(
                row_line(cols@, row.values@, cdc.operation, cdc.sequence@)->Ok_0,
            ));
        }
        if row_len > MAX_UNCOMPRESSED_ROW_BYTES {
            let limit = decimal_of(MAX_UNCOMPRESSED_ROW_BYTES as u128);
            let size = decimal_of(row_len as u128);
            return Err(
                Error::Encoding(
                    cat5(
                        "single row exceeds ",
                        limit.as_str(),
                        "B limit (",
                        size.as_str(),
                        "B uncompressed)",
                    ),
                ),
            );
        }
        let ghost row = AddedRow { line, token: offset.0@ };
        let ghost was = self.added@;
        let ghost start = self.state();
        proof {
            assert(was.push(row).drop_last() =~= was);
            assert(built(was.push(row)) == row_added(start, row));
        }
        if needs_flush(self.input_since_flush, row_len) {
            let ghost log = zstd_log(self.encoder);
            match self.encoder.flush() {
                Ok(_) => {},
                Err(e) => {
                    return Err(flush_failure(e.as_str()));
                },
            }
            self.input_since_flush = 0;
            proof {
                assert(log.push(None).drop_last() =~= log);
            }
            if needs_split(self.current_row_count, self.compressed_size(), row_len) {
                match self.next_batch() {
                    Ok(_) => {},
                    Err(e) => {
                        return Err(e);
                    },
                }
            }
        }
        let ghost room = self.state();
        proof {
            assert(room_made(start, line.len()) == Ok::<BuilderModel, Seq<char>>(room));
            assert(written(room.log) == lines(was.skip(was.len() - room.pending)));
        }
        match self.encoder.write_all(self.scratch.as_slice()) {
            Ok(_) => {},
            Err(e) => {
                return Err(write_failure(e.as_str()));
            },
        }
        self.input_since_flush = self.input_since_flush + row_len;
        self.current_row_count = self.current_row_count + 1;
        self.current_offset = offset.clone();
        self.added = Ghost(was.push(row));
        proof {
            let now = self.added@;
            let cut = now.len() - self.current_row_count;
            assert(now.take(cut) =~= was.take(cut));
            assert(now.skip(cut).drop_last() =~= was.skip(cut));
            assert(now.skip(cut).last() == now.last());
            let log = zstd_log(self.encoder);
            assert(log.drop_last() =~= room.log);
            assert(written(log) == written(room.log) + line);
            assert(lines(now.skip(cut)) == lines(was.skip(cut)) + line);
            assert(row_added(start, row) == Ok::<BuilderModel, Seq<char>>(self.state()));
        }
        Ok(())
    }

    /// Wrap-up building process, produce list of batches.
    pub fn finish(self) -> (r: SnowflakeResult<Vec<RowBatch>>)
        requires
            self.wf(),
        ensures
            match batches_for(self.rows()) {
                Ok(models) => r matches Ok(batches) && batch_models(batches@) == models && batched(
                    batches@,
                    self.rows(),
                ),
                Err(e) => r matches Err(Error::Encoding(text)) && text@ == e,
            },
    {
        let RowBatchBuilder {
            encoder,
            scratch: _,
            current_row_count,
            current_offset,
            input_since_flush: _,
            mut batches,
            added,
        } = self;
        let ghost cut = added@.len() - current_row_count;
        if current_row_count > 0 {
            let compressed = match encoder.finish() {
                Ok(compressed) => compressed,
                Err(e) => {
                    return Err(finish_failure(e.as_str()));
                },
            };
            let compressed = match within_limit(compressed) {
                Ok(compressed) => compressed,
                Err(e) => {
                    return Err(e);
                },
            };
            let ghost had = batches@;
            batches.push(
                RowBatch {
                    data: bytes_from(compressed),
                    row_count: current_row_count,
                    offset: current_offset,
                },
            );
            proof {
                assert(batches@.drop_last() =~= had);
                assert(batch_models(batches@) =~= batch_models(had).push(batches@.last()@));
            }
        } else {
            proof {
                assert(added@.take(cut) =~= added@);
            }
        }
        Ok(batches)
    }

    fn compressed_size(&self) -> (r: usize)
        ensures
            r == zstd_output_len(self.encoder),
    {
        self.encoder.output_len()
    }

    fn next_batch(&mut self) -> (r: SnowflakeResult<()>)
        requires
            old(self).current_row_count > 0,
            old(self).holds_its_rows(),
        ensures
            match batch_ended(old(self).state()) {
                Err(e) => r matches Err(Error::Encoding(text)) && text@ == e,
                Ok(m) => {
                    &&& r is Ok
                    &&& final(self).state() == m
                    &&& final(self).holds_its_rows()
                    &&& final(self).added == old(self).added
                    &&& final(self).scratch == old(self).scratch
                    &&& final(self).current_row_count == 0
                    &&& final(self).input_since_flush == 0
                },
            },
    {
        let mut old_encoder = ZstdEncoder::new(ZSTD_COMPRESSION_LEVEL);
        std::mem::swap(&mut self.encoder, &mut old_encoder);
        let compressed = match old_encoder.finish() {
            Ok(compressed) => compressed,
            Err(e) => {
                return Err(finish_failure(e.as_str()));
            },
        };
        let mut offset = OffsetToken::zero();
        std::mem::swap(&mut self.current_offset, &mut offset);
        let ghost had = self.batches@;
        self.batches.push(
            RowBatch {
                data: bytes_from(compressed),
                row_count: self.current_row_count,
                offset,
            },
        );
        self.current_row_count = 0;
        self.input_since_flush = 0;
        proof {
            assert(self.batches@.drop_last() =~= had);
            assert(batch_models(self.batches@) =~= batch_models(had).push(self.batches@.last()@));
            let n = self.added@.len() as int;
            assert(self.added@.take(n) =~= self.added@);
            assert(self.added@.skip(n) =~= Seq::<AddedRow>::empty());
        }
        Ok(())
    }
}

impl Default for RowBatchBuilder {
    fn default() -> (r: Self)
        ensures
            r.wf(),
            r.rows() == Seq::<AddedRow>::empty(),
            r.pending() == 0,
            r.state() == nothing_built(),
    {
        RowBatchBuilder::new()
    }
}

/// Batches keep every row: they decode, one after another, to the lines of all rows.
pub proof fn law_batches_keep_all_rows(batches: Seq<RowBatch>, rows: Seq<AddedRow>)
    requires
        batched(batches, rows),
    ensures
        decoded_batches(batches) == lines(rows),
        counted_rows(batches) == rows.len(),
        batches.len() > 0 ==> batches.last().token().0@ == rows.last().token,
        forall|i: int| 0 <= i < batches.len() ==> (#[trigger] batches[i]).rows() > 0,
    decreases batches.len(),
{
    if batches.len() > 0 {
        let cut = rows.len() - batches.last().rows();
        law_batches_keep_all_rows(batches.drop_last(), rows.take(cut));
        lemma_lines_of_parts(rows.take(cut), rows.skip(cut));
        assert(rows.take(cut) + rows.skip(cut) =~= rows);
        assert forall|i: int| 0 <= i < batches.len() implies (#[trigger] batches[i]).rows() > 0 by {
            if i < batches.len() - 1 {
                assert(batches.drop_last()[i] == batches[i]);
            }
        }
    }
}

proof fn lemma_lines_of_parts(a: Seq<AddedRow>, b: Seq<AddedRow>)
    ensures
        lines(a + b) == lines(a) + lines(b),
    decreases b.len(),
{
    if b.len() == 0 {
        assert(a + b =~= a);
        assert(lines(a) + lines(b) =~= lines(a));
    } else {
        lemma_lines_of_parts(a, b.drop_last());
        assert((a + b).drop_last() =~= a + b.drop_last());
        assert(lines(a + b) =~= lines(a) + lines(b));
    }
}

/// What the batches decode to, one after another.
pub open spec fn decoded_batches(batches: Seq<RowBatch>) -> Seq<u8>
    decreases batches.len(),
{
    if batches.len() == 0 {
        Seq::empty()
    } else {
        decoded_batches(batches.drop_last()) + zstd_decoded(batches.last().payload())
    }
}

/// How many rows the batches count.
pub open spec fn counted_rows(batches: Seq<RowBatch>) -> nat
    decreases batches.len(),
{
    if batches.len() == 0 {
        0
    } else {
        counted_rows(batches.drop_last()) + batches.last().rows()
    }
}

/// What the compressor has taken in is all that was written to it, in order; flushing adds nothing.
pub proof fn law_written_bytes_follow_each_other(log: Seq<Option<Seq<u8>>>, bytes: Seq<u8>)
    ensures
        written(Seq::empty()).len() == 0,
        written(log.push(Some(bytes))) == written(log) + bytes,
        written(log.push(None)) == written(log),
{
    assert(log.push(Some(bytes)).drop_last() =~= log);
    assert(log.push(None).drop_last() =~= log);
}

/// A row is refused if and only if it has no text, or its line has more than two mebibytes.
pub proof fn law_only_large_rows_are_refused(
    cols: Seq<ColumnSchema>,
    cells: Seq<Cell>,
    operation: CdcOperation,
    sequence: Seq<char>,
)
    ensures
        row_line(cols, cells, operation, sequence) matches Err(e) ==> encoded_row(
            cols,
            cells,
            operation,
            sequence,
        ) == Err::<Seq<u8>, Seq<char>>(e),
        row_line(cols, cells, operation, sequence) matches Ok(line) ==> (encoded_row(
            cols,
            cells,
            operation,
            sequence,
        ) is Ok <==> encode_utf8(line).len() <= 2_097_152),
        row_line(cols, cells, operation, sequence) matches Ok(line) ==> (encoded_row(
            cols,
            cells,
            operation,
            sequence,
        ) matches Ok(bytes) ==> bytes == encode_utf8(line)),
{
}

/// A payload can be sent if and only if it has at most four mebibytes, and is then sent as it is.
pub proof fn law_only_large_payloads_are_refused(payload: Seq<u8>)
    ensures
        payload.len() <= 4_194_304 ==> sendable(payload) == Ok::<Seq<u8>, Seq<char>>(payload),
        payload.len() > 4_194_304 ==> sendable(payload) is Err,
{
}

/// The compressor is flushed once 128 kibibytes wait in it. A batch is cut only when it has rows, and
/// only if with the next line it would have more than 3.8 million bytes; otherwise its rows stay.
pub proof fn law_batches_are_cut_by_size(m: BuilderModel, len: nat)
    ensures
        m.unflushed + len < 131_072 ==> room_made(m, len) == Ok::<BuilderModel, Seq<char>>(m),
        m.unflushed + len >= 131_072 ==> (zstd_flushed(3, m.log) matches Ok(size) ==> {
            let flushed = BuilderModel { log: m.log.push(None), unflushed: 0, ..m };
            &&& m.pending == 0 || size + len <= 3_800_000 ==> room_made(m, len) == Ok::<
                BuilderModel,
                Seq<char>,
            >(flushed)
            &&& m.pending > 0 && size + len > 3_800_000 ==> room_made(m, len) == batch_ended(
                flushed,
            )
        }),
        m.unflushed + len >= 131_072 ==> (zstd_flushed(3, m.log) is Err ==> room_made(m, len)
            is Err),
{
}

/// An ended batch is put behind the others with the rows that waited and the position of the last of
/// them, and nothing waits any longer.
pub proof fn law_ended_batches_are_kept(m: BuilderModel)
    ensures
        batch_ended(m) matches Ok(after) ==> {
            &&& after.done.len() == m.done.len() + 1
            &&& after.done.drop_last() == m.done
            &&& after.done.last().rows == m.pending
            &&& after.done.last().token == m.token
            &&& zstd_finished(3, m.log) == Ok::<Seq<u8>, Seq<char>>(after.done.last().payload)
            &&& after.pending == 0
            &&& after.unflushed == 0
            &&& after.log.len() == 0
        },
{
    match batch_ended(m) {
        Ok(after) => {
            assert(after.done.drop_last() =~= m.done);
        },
        Err(_) => {},
    }
}

/// Every added row is counted once, its line is written behind the others, and its position becomes
/// that of the batch.
pub proof fn law_added_rows_are_counted(m: BuilderModel, row: AddedRow)
    ensures
        row_added(m, row) matches Ok(after) ==> {
            let before = room_made(m, row.line.len())->Ok_0;
            &&& room_made(m, row.line.len()) is Ok
            &&& after.pending == before.pending + 1
            &&& after.pending == m.pending + 1 || after.pending == 1
            &&& after.token == row.token
            &&& after.done == before.done
            &&& after.log == before.log.push(Some(row.line))
            &&& after.unflushed == before.unflushed + row.line.len()
            &&& counted_models(after.done) + after.pending == counted_models(m.done) + m.pending + 1
        },
{
    match room_made(m, row.line.len()) {
        Ok(before) => {
            if before.done != m.done {
                assert(before.done.drop_last() =~= m.done);
            }
        },
        Err(_) => {},
    }
}

/// Number of rows that batches hold.
pub open spec fn counted_models(batches: Seq<BatchModel>) -> nat
    decreases batches.len(),
{
    if batches.len() == 0 {
        0
    } else {
        counted_models(batches.drop_last()) + batches.last().rows
    }
}

/// However rows are cut into batches, each row is counted once, and the last batch has the position of
/// the last row. Without rows there are no batches.
pub proof fn law_batches_hold_every_row(rows: Seq<AddedRow>)
    ensures
        built(rows) matches Ok(m) ==> counted_models(m.done) + m.pending == rows.len(),
        batches_for(rows) matches Ok(batches) ==> counted_models(batches) == rows.len(),
        batches_for(Seq::empty()) == Ok::<Seq<BatchModel>, Seq<char>>(Seq::empty()),
        built(rows) matches Ok(m) ==> (rows.len() > 0 ==> m.pending > 0 && m.token
            == rows.last().token),
        batches_for(rows) matches Ok(batches) ==> (rows.len() > 0 ==> batches.len() > 0
            && batches.last().token == rows.last().token),
    decreases rows.len(),
{
    if rows.len() > 0 {
        law_batches_hold_every_row(rows.drop_last());
        match built(rows.drop_last()) {
            Ok(m) => {
                law_added_rows_are_counted(m, rows.last());
            },
            Err(_) => {},
        }
    }
    match built(rows) {
        Ok(m) => {
            match all_batches(m) {
                Ok(batches) => {
                    if m.pending > 0 {
                        assert(batches.drop_last() =~= m.done);
                    }
                },
                Err(_) => {},
            }
        },
        Err(_) => {},
    }
}

/// Rows are compressed at level three.
pub proof fn law_compression_limits()
    ensures
        ZSTD_COMPRESSION_LEVEL == 3,
        MAX_COMPRESSED_BYTES == 4 * 1024 * 1024,
        BATCH_SPLIT_THRESHOLD == 3_800_000,
        MAX_UNFLUSHED_BYTES == 128 * 1024,
        MAX_UNCOMPRESSED_ROW_BYTES == 2 * 1024 * 1024,
{
}

/// The encoder is flushed once 131072 bytes wait, and a batch that holds rows is split before it would
/// pass 3800000 compressed bytes.
pub proof fn law_batches_are_flushed_and_split(
    waiting: usize,
    len: usize,
    rows: usize,
    compressed: usize,
    flush: bool,
    split: bool,
)
    requires
        call_ensures(needs_flush, (waiting, len), flush),
        call_ensures(needs_split, (rows, compressed, len), split),
    ensures
        flush <==> waiting + len >= 131_072,
        split <==> rows > 0 && compressed + len > 3_800_000,
{
}

/// A failed write, flush or end of the encoder is an encoding error that says which.
pub proof fn law_encoder_failures_are_named(
    reason: &str,
    write: Error,
    flush: Error,
    finish: Error,
)
    requires
        call_ensures(write_failure, (reason,), write),
        call_ensures(flush_failure, (reason,), flush),
        call_ensures(finish_failure, (reason,), finish),
    ensures
        write matches Error::Encoding(text) && text@ == "zstd write: "@ + reason@,
        flush matches Error::Encoding(text) && text@ == "zstd flush: "@ + reason@,
        finish matches Error::Encoding(text) && text@ == "zstd finish: "@ + reason@,
{
}

/// Nothing is built at first: no batch, no byte and no row.
pub proof fn law_nothing_is_built_at_first()
    ensures
        nothing_built().done.len() == 0,
        nothing_built().log.len() == 0,
        nothing_built().pending == 0,
        nothing_built().unflushed == 0,
{
}

/// A payload is kept as it is, or refused as too large.
pub proof fn law_payloads_are_kept_or_refused(compressed: Vec<u8>, r: SnowflakeResult<Vec<u8>>)
    requires
        call_ensures(within_limit, (compressed,), r),
    ensures
        r is Ok <==> sendable(compressed@) is Ok,
        r matches Ok(bytes) ==> bytes == compressed,
        r matches Err(e) ==> e is Encoding,
{
}

} // verus!
