//! Streaming, header-indexed decoding of delimited text.
//!
//! A [`CsvReader`] reads the header row once and builds a caller-defined
//! header index from it; [`CsvReader::with_parser`] then yields a
//! [`CsvRowReader`] that decodes each data row with a [`CsvRowParser`].

pub mod columns;
pub mod reader;
pub mod record;

pub use columns::{find_column, ColumnError};
pub use reader::{
    CsvReader, CsvReaderCreationError, CsvRowParser, CsvRowReader, CsvRowReaderError, RowEvent,
};
pub use record::record_fields;
