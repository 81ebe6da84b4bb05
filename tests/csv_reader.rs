use std::cell::Cell;
use std::io::BufReader;

use csv::StringRecord;
use csv_row_reader::{
    find_column, ColumnError, CsvReader, CsvReaderCreationError, CsvRowParser, CsvRowReaderError,
};

#[derive(Debug, PartialEq)]
struct FromRow {
    x: f64,
    y: i64,
}

struct HeaderIndexer {
    x_idx: usize,
    y_idx: usize,
}

#[derive(Debug, PartialEq)]
enum HeaderIndexerError {
    NoX,
    DuplicatedX,
    NoY,
    DuplicatedY,
}

impl HeaderIndexer {
    fn new(columns: &StringRecord) -> Result<HeaderIndexer, HeaderIndexerError> {
        let x_idx = find_column(columns, "X").map_err(|e| match e {
            ColumnError::Missing => HeaderIndexerError::NoX,
            ColumnError::Duplicated => HeaderIndexerError::DuplicatedX,
        })?;
        let y_idx = find_column(columns, "Y").map_err(|e| match e {
            ColumnError::Missing => HeaderIndexerError::NoY,
            ColumnError::Duplicated => HeaderIndexerError::DuplicatedY,
        })?;
        Ok(HeaderIndexer { x_idx, y_idx })
    }
}

struct Parser;

impl CsvRowParser for Parser {
    type HeaderIndexer = HeaderIndexer;
    type R = FromRow;
    type E = String;

    fn parse_row(&mut self, header_indexer: &HeaderIndexer, row: StringRecord) -> Result<FromRow, String> {
        let x = row.get(header_indexer.x_idx).ok_or_else(|| "no x".to_string())?;
        let y = row.get(header_indexer.y_idx).ok_or_else(|| "no y".to_string())?;
        Ok(FromRow {
            x: x.parse().map_err(|e| format!("x: {e}"))?,
            y: y.parse().map_err(|e| format!("y: {e}"))?,
        })
    }
}

const CSV_FILE: &str = r#"X,Z, Y
           10.2,23.3,11
           1,0,12.9
           ,,1
           0,8,9
           1,,2"#;

#[test]
fn csv_reader() {
    let reader = BufReader::new(CSV_FILE.as_bytes());
    let mut reader = CsvReader::new_from_reader(HeaderIndexer::new, reader, ',').unwrap();
    let mut reader = reader.with_parser(Parser);
    assert_eq!(reader.next().unwrap().unwrap(), FromRow { x: 10.2, y: 11 });
    assert!(reader.next().unwrap().is_err());
    assert!(reader.next().unwrap().is_err());
    assert_eq!(reader.next().unwrap().unwrap(), FromRow { x: 0.0, y: 9 });
    assert_eq!(reader.next().unwrap().unwrap(), FromRow { x: 1.0, y: 2 });
    assert!(reader.next().is_none())
}

#[test]
fn scenario_errors_are_decode_errors() {
    let mut reader = CsvReader::new_from_reader(HeaderIndexer::new, CSV_FILE.as_bytes(), ',').unwrap();
    let mut rows = reader.with_parser(Parser);
    assert_eq!(rows.next().unwrap().unwrap(), FromRow { x: 10.2, y: 11 });
    let second = rows.next().unwrap();
    assert!(matches!(second, Err(CsvRowReaderError::RowParserError(ref e)) if e.starts_with("y:")));
    let third = rows.next().unwrap();
    assert!(matches!(third, Err(CsvRowReaderError::RowParserError(ref e)) if e.starts_with("x:")));
    assert_eq!(rows.next().unwrap().unwrap(), FromRow { x: 0.0, y: 9 });
    assert_eq!(rows.next().unwrap().unwrap(), FromRow { x: 1.0, y: 2 });
    assert!(rows.next().is_none());
}

#[test]
fn every_row_decoded_when_parser_accepts_all() {
    let text = "Y,X\n1,2\n3,4\n5,6\n7,8\n";
    let mut reader = CsvReader::new_from_reader(HeaderIndexer::new, text.as_bytes(), ',').unwrap();
    let mut rows = reader.with_parser(Parser);
    let mut decoded: Vec<FromRow> = Vec::new();
    while let Some(r) = rows.next() {
        decoded.push(r.unwrap());
    }
    assert_eq!(
        decoded,
        vec![
            FromRow { x: 2.0, y: 1 },
            FromRow { x: 4.0, y: 3 },
            FromRow { x: 6.0, y: 5 },
            FromRow { x: 8.0, y: 7 },
        ]
    );
}

#[test]
fn empty_body_yields_nothing() {
    let mut reader = CsvReader::new_from_reader(HeaderIndexer::new, "X,Y\n".as_bytes(), ',').unwrap();
    let mut rows = reader.with_parser(Parser);
    assert!(rows.next().is_none());
}

struct CountingParser<'c> {
    header_calls: &'c Cell<u32>,
    rows: u32,
}

impl<'c> CsvRowParser for CountingParser<'c> {
    type HeaderIndexer = HeaderIndexer;
    type R = u32;
    type E = String;

    fn parse_row(&mut self, _: &HeaderIndexer, _: StringRecord) -> Result<u32, String> {
        if self.header_calls.get() != 1 {
            return Err("row seen before the header was indexed".to_string());
        }
        self.rows += 1;
        Ok(self.rows)
    }
}

#[test]
fn header_indexed_once_before_rows() {
    let header_calls = Cell::new(0u32);
    let builder = |h: &StringRecord| {
        header_calls.set(header_calls.get() + 1);
        let fields: Vec<&str> = h.iter().collect();
        if fields == vec!["X", "Y"] {
            HeaderIndexer::new(h)
        } else {
            Err(HeaderIndexerError::NoX)
        }
    };
    let mut reader = CsvReader::new_from_reader(builder, "X, Y\n1,2\n3,4\n".as_bytes(), ',').unwrap();
    assert_eq!(header_calls.get(), 1);
    let mut rows = reader.with_parser(CountingParser { header_calls: &header_calls, rows: 0 });
    assert_eq!(rows.next().unwrap().unwrap(), 1);
    assert_eq!(rows.next().unwrap().unwrap(), 2);
    assert!(rows.next().is_none());
    assert_eq!(header_calls.get(), 1);
}

#[test]
fn malformed_row_does_not_end_stream() {
    let text = "X,Y\n1,2\n3,4,5\n6,7\n";
    let mut reader = CsvReader::new_from_reader(HeaderIndexer::new, text.as_bytes(), ',').unwrap();
    let mut rows = reader.with_parser(Parser);
    assert_eq!(rows.next().unwrap().unwrap(), FromRow { x: 1.0, y: 2 });
    assert!(matches!(rows.next(), Some(Err(CsvRowReaderError::CsvRecordError(_)))));
    assert_eq!(rows.next().unwrap().unwrap(), FromRow { x: 6.0, y: 7 });
    assert!(rows.next().is_none());
}

#[test]
fn duplicated_column_fails_construction() {
    let r = CsvReader::new_from_reader(HeaderIndexer::new, "X,Y,X\n1,2,3\n".as_bytes(), ',');
    assert!(matches!(
        r,
        Err(CsvReaderCreationError::HeaderIndexerBuilderError(HeaderIndexerError::DuplicatedX))
    ));
    let r = CsvReader::new_from_reader(HeaderIndexer::new, "Y,X,Y\n1,2,3\n".as_bytes(), ',');
    assert!(matches!(
        r,
        Err(CsvReaderCreationError::HeaderIndexerBuilderError(HeaderIndexerError::DuplicatedY))
    ));
}

#[test]
fn missing_column_fails_construction() {
    let r = CsvReader::new_from_reader(HeaderIndexer::new, "Z,Y\n1,2\n".as_bytes(), ',');
    assert!(matches!(r, Err(CsvReaderCreationError::HeaderIndexerBuilderError(HeaderIndexerError::NoX))));
    let r = CsvReader::new_from_reader(HeaderIndexer::new, "X,Z\n1,2\n".as_bytes(), ',');
    assert!(matches!(r, Err(CsvReaderCreationError::HeaderIndexerBuilderError(HeaderIndexerError::NoY))));
}

#[test]
fn unreadable_header_is_source_error() {
    let bytes: &[u8] = &[b'X', 0xff, b',', b'Y', b'\n', b'1', b',', b'2', b'\n'];
    let r = CsvReader::new_from_reader(HeaderIndexer::new, bytes, ',');
    assert!(matches!(r, Err(CsvReaderCreationError::CsvError(_))));
}

#[test]
fn exhaustion_is_stable() {
    let mut reader = CsvReader::new_from_reader(HeaderIndexer::new, "X,Y\n1,2\n".as_bytes(), ',').unwrap();
    let mut rows = reader.with_parser(Parser);
    assert!(rows.next().unwrap().is_ok());
    assert!(rows.next().is_none());
    assert!(rows.next().is_none());
    assert!(rows.next().is_none());
}

#[test]
fn other_delimiter_and_trimming() {
    let text = "  Y ; X \n 5 ; 2.5 \n";
    let mut reader = CsvReader::new_from_reader(HeaderIndexer::new, text.as_bytes(), ';').unwrap();
    let mut rows = reader.with_parser(Parser);
    assert_eq!(rows.next().unwrap().unwrap(), FromRow { x: 2.5, y: 5 });
    assert!(rows.next().is_none());
}

#[test]
fn comment_lines_skipped_only_when_asked() {
    let text = "X,Y\n# a remark\n1,2\n";
    let mut reader =
        CsvReader::new_from_reader_with_comment(HeaderIndexer::new, text.as_bytes(), ',', Some(b'#')).unwrap();
    let mut rows = reader.with_parser(Parser);
    assert_eq!(rows.next().unwrap().unwrap(), FromRow { x: 1.0, y: 2 });
    assert!(rows.next().is_none());

    let mut reader = CsvReader::new_from_reader(HeaderIndexer::new, text.as_bytes(), ',').unwrap();
    let mut rows = reader.with_parser(Parser);
    assert!(rows.next().unwrap().is_err());
    assert_eq!(rows.next().unwrap().unwrap(), FromRow { x: 1.0, y: 2 });
    assert!(rows.next().is_none());
}

#[test]
fn decode_pulled_handles_each_outcome() {
    let mut reader = CsvReader::new_from_reader(HeaderIndexer::new, "X,Y\n".as_bytes(), ',').unwrap();
    let mut rows = reader.with_parser(Parser);
    let good = StringRecord::from(vec!["3.5", "4"]);
    assert_eq!(rows.decode_pulled(Some(Ok(good))).unwrap().unwrap(), FromRow { x: 3.5, y: 4 });
    let bad = StringRecord::from(vec!["3.5", "four"]);
    assert!(matches!(rows.decode_pulled(Some(Ok(bad))), Some(Err(CsvRowReaderError::RowParserError(_)))));
    assert!(rows.decode_pulled(None).is_none());
    let late = StringRecord::from(vec!["1", "1"]);
    assert!(rows.decode_pulled(Some(Ok(late))).is_none());
}

#[test]
fn find_column_positions_and_errors() {
    let header = StringRecord::from(vec!["A", "B", "C", "B"]);
    assert_eq!(find_column(&header, "C"), Ok(2));
    assert_eq!(find_column(&header, "A"), Ok(0));
    assert_eq!(find_column(&header, "B"), Err(ColumnError::Duplicated));
    assert_eq!(find_column(&header, "D"), Err(ColumnError::Missing));
    assert_eq!(find_column(&header, "AB"), Err(ColumnError::Missing));
    assert_eq!(find_column(&StringRecord::new(), "A"), Err(ColumnError::Missing));
}

#[test]
fn find_column_compares_whole_text() {
    let header = StringRecord::from(vec!["é", "ée", "e"]);
    assert_eq!(find_column(&header, "é"), Ok(0));
    assert_eq!(find_column(&header, "e"), Ok(2));
    assert_eq!(find_column(&header, ""), Err(ColumnError::Missing));
}
