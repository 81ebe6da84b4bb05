//! The header-indexed reader and the row-decoding stream built on it.
use vstd::prelude::*;

use crate::columns::count_in;
use crate::record::record_fields;

verus! {

#[verifier::external_type_specification]
#[verifier::external_body]
#[verifier::reject_recursive_types(R)]
pub struct ExReader<R>(csv::Reader<R>);

#[verifier::external_type_specification]
#[verifier::external_body]
#[verifier::reject_recursive_types(R)]
pub struct ExStringRecordsIter<'r, R: 'r>(csv::StringRecordsIter<'r, R>);

/// Relies on `csv::ReaderBuilder`: a reader over `rdr` that takes the first
/// row as the header, splits fields at `delimiter`, trims every field and
/// skips the lines that start with `comment`, if one is given.
#[verifier::external_body]
fn open_reader<R: std::io::Read>(rdr: R, delimiter: u8, comment: Option<u8>) -> csv::Reader<R> {
    csv::ReaderBuilder::new()
        .has_headers(true)
        .delimiter(delimiter)
        .comment(comment)
        .trim(csv::Trim::All)
        .from_reader(rdr)
}

/// Relies on `csv::Reader::headers`: the header row, read from the source on
/// the first call, here handed back as a copy.
#[verifier::external_body]
fn read_headers<R: std::io::Read>(rdr: &mut csv::Reader<R>) -> Result<csv::StringRecord, csv::Error> {
    rdr.headers().cloned()
}

/// Relies on `csv::Reader::records`: an iterator over the rows that follow the
/// header.
#[verifier::external_body]
fn records<'r, R: std::io::Read>(rdr: &'r mut csv::Reader<R>) -> csv::StringRecordsIter<'r, R> {
    rdr.records()
}

/// Relies on the `Iterator` impl of `csv::StringRecordsIter`: the next row, an
/// error where the row is malformed, or `None` at the end of the input.
#[verifier::external_body]
fn next_record<R: std::io::Read>(
    rows: &mut csv::StringRecordsIter<'_, R>,
) -> Option<Result<csv::StringRecord, csv::Error>> {
    rows.next()
}

/// Why a [`CsvReader`] could not be made.
#[derive(Debug)]
pub enum CsvReaderCreationError<E> {
    /// The source could not be read, or its header row is malformed.
    CsvError(csv::Error),
    /// The header-index builder rejected the header row.
    HeaderIndexerBuilderError(E),
}

/// What building the header index from `headers` may give: the source's own
/// error where the header row could not be read, and otherwise what `builder`
/// returned on that row.
pub open spec fn indexed_from<H, E, F: FnOnce(&csv::StringRecord) -> Result<H, E>>(
    builder: F,
    headers: Result<csv::StringRecord, csv::Error>,
    r: Result<H, CsvReaderCreationError<E>>,
) -> bool {
    match headers {
        Err(e) => r == Err::<H, CsvReaderCreationError<E>>(CsvReaderCreationError::CsvError(e)),
        Ok(h) => match r {
            Ok(x) => builder.ensures((&h,), Ok::<H, E>(x)),
            Err(CsvReaderCreationError::HeaderIndexerBuilderError(e)) => builder.ensures(
                (&h,),
                Err::<H, E>(e),
            ),
            Err(CsvReaderCreationError::CsvError(_)) => false,
        },
    }
}

/// Whether `e` is an error that making a reader with `builder` may give: any
/// error of the source, or an error that `builder` returned on some header row.
pub open spec fn rejected_by<H, E, F: FnOnce(&csv::StringRecord) -> Result<H, E>>(
    builder: F,
    e: CsvReaderCreationError<E>,
) -> bool {
    match e {
        CsvReaderCreationError::CsvError(_) => true,
        CsvReaderCreationError::HeaderIndexerBuilderError(x) => exists|h: csv::StringRecord|
            builder.ensures((&h,), Err::<H, E>(x)),
    }
}

/// Builds the header index from the header row that was read, or passes on
/// the error that reading it gave.
///
/// `builder` is called once, on the header row, and only where it was read.
pub fn index_header<H, E, F: FnOnce(&csv::StringRecord) -> Result<H, E>>(
    builder: F,
    headers: Result<csv::StringRecord, csv::Error>,
) -> (r: Result<H, CsvReaderCreationError<E>>)
    requires
        forall|h: &csv::StringRecord| builder.requires((h,)),
    ensures
        indexed_from(builder, headers, r),
{
    match headers {
        Err(e) => Err(CsvReaderCreationError::CsvError(e)),
        Ok(h) => match builder(&h) {
            Ok(x) => Ok(x),
            Err(e) => Err(CsvReaderCreationError::HeaderIndexerBuilderError(e)),
        },
    }
}

/// A reader of delimited text whose header row has been read and indexed.
#[verifier::reject_recursive_types(R)]
pub struct CsvReader<R, H> {
    reader: csv::Reader<R>,
    header_indexer: H,
    header: Ghost<csv::StringRecord>,
}

impl<R, H> CsvReader<R, H> {
    /// The index built from the header row.
    pub closed spec fn header_indexer(&self) -> H {
        self.header_indexer
    }

    /// The header row that the index was built from.
    pub closed spec fn header_row(&self) -> csv::StringRecord {
        self.header@
    }
}

impl<R: std::io::Read, H> CsvReader<R, H> {
    /// Creates a reader over `reader` that splits fields at `delimiter`, trims
    /// every field, and skips the lines that start with `comment`, if given.
    ///
    /// The header row is read here, once, and handed to
    /// `header_indexer_builder`; no data row has been read when this returns.
    /// A delimiter is taken as the low byte of its code point.
    pub fn new_from_reader_with_comment<E, F: FnOnce(&csv::StringRecord) -> Result<H, E>>(
        header_indexer_builder: F,
        reader: R,
        delimiter: char,
        comment: Option<u8>,
    ) -> (r: Result<Self, CsvReaderCreationError<E>>)
        requires
            forall|h: &csv::StringRecord| header_indexer_builder.requires((h,)),
        ensures
            r is Ok ==> header_indexer_builder.ensures(
                (&r->Ok_0.header_row(),),
                Ok::<H, E>(r->Ok_0.header_indexer()),
            ),
            r is Err ==> rejected_by(header_indexer_builder, r->Err_0),
    {
        let mut reader = open_reader(reader, delimiter_byte(delimiter), comment);
        let headers = read_headers(&mut reader);
        let ghost read = headers;
        match index_header(header_indexer_builder, headers) {
            Ok(header_indexer) => {
                let ghost header = read->Ok_0;
                Ok(CsvReader { reader, header_indexer, header: Ghost(header) })
            },
            Err(e) => {
                if let CsvReaderCreationError::HeaderIndexerBuilderError(x) = &e {
                    assert(header_indexer_builder.ensures((&read->Ok_0,), Err::<H, E>(*x)));
                }
                Err(e)
            },
        }
    }

    /// Creates a reader over `reader` that splits fields at `delimiter` and
    /// trims every field; no line is taken as a comment.
    ///
    /// The header row is read here, once, and handed to
    /// `header_indexer_builder`; no data row has been read when this returns.
    pub fn new_from_reader<E, F: FnOnce(&csv::StringRecord) -> Result<H, E>>(
        header_indexer_builder: F,
        reader: R,
        delimiter: char,
    ) -> (r: Result<Self, CsvReaderCreationError<E>>)
        requires
            forall|h: &csv::StringRecord| header_indexer_builder.requires((h,)),
        ensures
            r is Ok ==> header_indexer_builder.ensures(
                (&r->Ok_0.header_row(),),
                Ok::<H, E>(r->Ok_0.header_indexer()),
            ),
            r is Err ==> rejected_by(header_indexer_builder, r->Err_0),
    {
        Self::new_from_reader_with_comment(header_indexer_builder, reader, delimiter, None)
    }
}

impl<R: std::io::Read, H> CsvReader<R, H> {
    /// Starts decoding the data rows with `row_parser`, against the index
    /// built from the header row.
    ///
    /// The stream starts with no row decoded; only one stream can borrow
    /// this reader at a time.
    pub fn with_parser<P: CsvRowParser<HeaderIndexer = H>>(&mut self, row_parser: P) -> (r:
        CsvRowReader<'_, R, P>)
        ensures
            r.events() == Seq::<RowEvent>::empty(),
            !r.is_exhausted(),
            *r.header_indexer() == old(self).header_indexer(),
            r.row_parser() == row_parser,
            final(self).header_indexer() == old(self).header_indexer(),
            final(self).header_row() == old(self).header_row(),
    {
        CsvRowReader {
            row_reader: records(&mut self.reader),
            header_indexer: &self.header_indexer,
            row_parser,
            exhausted: false,
            events: Ghost(Seq::empty()),
        }
    }
}

/// Decoding of one data row, against the index built from the header row.
pub trait CsvRowParser {
    /// The index built from the header row.
    type HeaderIndexer;

    /// What a row decodes to.
    type R;

    /// Why a row does not decode.
    type E;

    /// Decodes `row`, whose columns `header_indexer` locates.
    fn parse_row(&mut self, header_indexer: &Self::HeaderIndexer, row: csv::StringRecord) -> Result<
        Self::R,
        Self::E,
    >;
}

/// Why a data row gave no value.
#[derive(Debug)]
pub enum CsvRowReaderError<E> {
    /// The row is malformed: the source could not split it into fields.
    CsvRecordError(csv::Error),
    /// The row parser rejected the row.
    RowParserError(E),
}

/// What became of one data row that the stream took from the source.
#[derive(Debug, Clone, Copy, PartialEq, Eq, Structural)]
pub enum RowEvent {
    /// The row parser decoded the row.
    Decoded,
    /// The row parser rejected the row.
    Rejected,
    /// The source found the row malformed.
    Malformed,
}

/// The event that a result of the stream records.
pub open spec fn event_of<T, E>(r: Result<T, CsvRowReaderError<E>>) -> RowEvent {
    match r {
        Ok(_) => RowEvent::Decoded,
        Err(CsvRowReaderError::RowParserError(_)) => RowEvent::Rejected,
        Err(CsvRowReaderError::CsvRecordError(_)) => RowEvent::Malformed,
    }
}

/// A stream of decoded data rows, in the order of the source.
#[verifier::reject_recursive_types(R)]
pub struct CsvRowReader<'a, R: 'a, P: CsvRowParser> {
    row_reader: csv::StringRecordsIter<'a, R>,
    header_indexer: &'a P::HeaderIndexer,
    row_parser: P,
    exhausted: bool,
    events: Ghost<Seq<RowEvent>>,
}

impl<'a, R, P: CsvRowParser> CsvRowReader<'a, R, P> {
    /// One event for each data row taken so far, in the order of the source.
    pub closed spec fn events(&self) -> Seq<RowEvent> {
        self.events@
    }

    /// Whether the source has reported its end.
    pub closed spec fn is_exhausted(&self) -> bool {
        self.exhausted
    }

    /// The index built from the header row.
    pub closed spec fn header_indexer(&self) -> &'a P::HeaderIndexer {
        self.header_indexer
    }

    /// The row parser.
    pub closed spec fn row_parser(&self) -> P {
        self.row_parser
    }

    /// Hands one outcome of the source to the stream: the end of the input,
    /// a malformed row, or a row to decode.
    ///
    /// A row is decoded with the row parser and the header index; a malformed
    /// row gives [`CsvRowReaderError::CsvRecordError`] and leaves the stream
    /// open. Once the end has been handed in, every call gives `None`.
    pub fn decode_pulled(&mut self, pulled: Option<Result<csv::StringRecord, csv::Error>>) -> (r:
        Option<Result<P::R, CsvRowReaderError<P::E>>>)
        ensures
            final(self).header_indexer() == old(self).header_indexer(),
            old(self).is_exhausted() ==> r is None && *final(self) == *old(self),
            !old(self).is_exhausted() ==> match pulled {
                None => r is None && final(self).is_exhausted() && final(self).events()
                    == old(self).events(),
                Some(Err(e)) => r == Some(Err::<P::R, _>(CsvRowReaderError::<P::E>::CsvRecordError(e)))
                    && final(self).row_parser() == old(self).row_parser(),
                Some(Ok(_)) => r is Some && !(r->Some_0 matches Err(
                    CsvRowReaderError::CsvRecordError(_),
                )),
            },
            r is Some ==> !final(self).is_exhausted() && final(self).events() == old(
                self,
            ).events().push(event_of(r->Some_0)),
    {
        if self.exhausted {
            return None;
        }
        match pulled {
            None => {
                self.exhausted = true;
                None
            },
            Some(Err(e)) => {
                self.events = Ghost(self.events@.push(RowEvent::Malformed));
                Some(Err(CsvRowReaderError::CsvRecordError(e)))
            },
            Some(Ok(row)) => {
                let decoded = self.row_parser.parse_row(self.header_indexer, row);
                match decoded {
                    Ok(v) => {
                        self.events = Ghost(self.events@.push(RowEvent::Decoded));
                        Some(Ok(v))
                    },
                    Err(e) => {
                        self.events = Ghost(self.events@.push(RowEvent::Rejected));
                        Some(Err(CsvRowReaderError::RowParserError(e)))
                    },
                }
            },
        }
    }
}

impl<'a, R: std::io::Read, P: CsvRowParser> CsvRowReader<'a, R, P> {
    /// Takes the next data row from the source and decodes it.
    ///
    /// Gives `None` at the end of the input, and from then on at every call;
    /// a malformed row or a row the parser rejects gives an error and leaves
    /// the stream open. Each row that gives a result adds one event.
    pub fn next(&mut self) -> (r: Option<Result<P::R, CsvRowReaderError<P::E>>>)
        ensures
            final(self).header_indexer() == old(self).header_indexer(),
            old(self).is_exhausted() ==> r is None && final(self).is_exhausted()
                && final(self).events() == old(self).events(),
            r is None ==> final(self).is_exhausted() && final(self).events() == old(self).events(),
            r is Some ==> !final(self).is_exhausted() && final(self).events() == old(
                self,
            ).events().push(event_of(r->Some_0)),
    {
        if self.exhausted {
            return None;
        }
        let pulled = next_record(&mut self.row_reader);
        self.decode_pulled(pulled)
    }
}

/// How many of `events` are `e`.
pub open spec fn count_events(events: Seq<RowEvent>, e: RowEvent) -> nat
    decreases events.len(),
{
    if events.len() == 0 {
        0
    } else {
        count_events(events.drop_last(), e) + if events.last() == e {
            1nat
        } else {
            0nat
        }
    }
}

/// Where the source gives no malformed row and the row parser rejects none,
/// every data row taken from the source is decoded: one value per row.
pub proof fn lemma_every_row_decoded(events: Seq<RowEvent>)
    requires
        forall|i: int| 0 <= i < events.len() ==> events[i] != RowEvent::Malformed,
        forall|i: int| 0 <= i < events.len() ==> events[i] != RowEvent::Rejected,
    ensures
        count_events(events, RowEvent::Decoded) == events.len(),
    decreases events.len(),
{
    if events.len() > 0 {
        let rest = events.drop_last();
        assert forall|i: int| 0 <= i < rest.len() implies rest[i] != RowEvent::Malformed
            && rest[i] != RowEvent::Rejected by {
            assert(rest[i] == events[i]);
        }
        lemma_every_row_decoded(rest);
        assert(events.last() == events[events.len() - 1]);
    }
}

/// Whether `builder` builds an index only from a header row that names the
/// column `name` exactly once.
pub open spec fn needs_column<H, E, F: FnOnce(&csv::StringRecord) -> Result<H, E>>(
    builder: F,
    name: Seq<char>,
) -> bool {
    forall|h: &csv::StringRecord, x: H|
        #[trigger] builder.ensures((h,), Ok::<H, E>(x)) ==> count_in(record_fields(*h), name) == 1
}

/// Where the header row lacks a column that the builder needs, or names it
/// twice or more, indexing the header fails with the builder's error, so no
/// reader, and no stream, is made from it.
pub proof fn lemma_bad_header_rejected<H, E, F: FnOnce(&csv::StringRecord) -> Result<H, E>>(
    builder: F,
    name: Seq<char>,
    header: csv::StringRecord,
    r: Result<H, CsvReaderCreationError<E>>,
)
    requires
        needs_column(builder, name),
        count_in(record_fields(header), name) != 1,
        indexed_from(builder, Ok(header), r),
    ensures
        r matches Err(CsvReaderCreationError::HeaderIndexerBuilderError(_)),
{
    if let Ok(x) = r {
        assert(builder.ensures((&header,), Ok::<H, E>(x)));
    }
}

/// A reader made with a builder that needs the column `name` has a header row
/// that names it exactly once.
pub proof fn lemma_reader_has_column<R, H, E, F: FnOnce(&csv::StringRecord) -> Result<H, E>>(
    builder: F,
    name: Seq<char>,
    reader: CsvReader<R, H>,
)
    requires
        needs_column(builder, name),
        builder.ensures((&reader.header_row(),), Ok::<H, E>(reader.header_indexer())),
    ensures
        count_in(record_fields(reader.header_row()), name) == 1,
{
}

/// The byte that stands for `delimiter`: the low byte of its code point.
pub open spec fn delimiter_byte_of(delimiter: char) -> u8 {
    ((delimiter as u32) % 256) as u8
}

/// The byte that stands for `delimiter`: the low byte of its code point.
pub fn delimiter_byte(delimiter: char) -> (b: u8)
    ensures
        b == delimiter_byte_of(delimiter),
{
    ((delimiter as u32) % 256) as u8
}

} // verus!
