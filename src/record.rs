//! Record headers: a size varint, then one serial-type varint per column.
use vstd::prelude::*;

use crate::error::Error;
use crate::varint::{lemma_varint_at_bounds, read_varint_at, varint_at};

verus! {

/// Storage class and on-disk width of one column of a record.
#[derive(Debug, Clone, Copy, PartialEq, Eq, Structural)]
pub enum ColumnType {
    Null,
    /// Big-endian two's complement integer of 1, 2, 3, 4, 6 or 8 bytes.
    Integer { size: u8 },
    /// IEEE-754 double, 8 bytes.
    Real,
    ConstantZero,
    ConstantOne,
    /// Text of `length` bytes.
    Text { length: u64 },
    /// Blob of `length` bytes.
    Blob { length: u64 },
}

/// The column type that a serial-type code denotes; `None` for the reserved codes 10 and 11.
pub open spec fn column_type_of(code: u64) -> Option<ColumnType> {
    if code == 0 {
        Some(ColumnType::Null)
    } else if 1 <= code <= 4 {
        Some(ColumnType::Integer { size: code as u8 })
    } else if code == 5 {
        Some(ColumnType::Integer { size: 6 })
    } else if code == 6 {
        Some(ColumnType::Integer { size: 8 })
    } else if code == 7 {
        Some(ColumnType::Real)
    } else if code == 8 {
        Some(ColumnType::ConstantZero)
    } else if code == 9 {
        Some(ColumnType::ConstantOne)
    } else if code == 10 || code == 11 {
        None
    } else if code % 2 == 0 {
        Some(ColumnType::Blob { length: ((code - 12) / 2) as u64 })
    } else {
        Some(ColumnType::Text { length: ((code - 13) / 2) as u64 })
    }
}

/// The number of data bytes that a serial-type code stands for, as the file
/// format tabulates it.
pub open spec fn serial_size(code: u64) -> nat {
    if code == 0 || code == 8 || code == 9 {
        0
    } else if 1 <= code <= 4 {
        code as nat
    } else if code == 5 {
        6
    } else if code == 6 || code == 7 {
        8
    } else if code >= 12 && code % 2 == 0 {
        ((code - 12) / 2) as nat
    } else {
        ((code - 13) / 2) as nat
    }
}

impl ColumnType {
    /// Bytes that a column of this type occupies in the record body.
    pub open spec fn width(&self) -> nat {
        match *self {
            ColumnType::Null | ColumnType::ConstantZero | ColumnType::ConstantOne => 0,
            ColumnType::Integer { size } => size as nat,
            ColumnType::Real => 8,
            ColumnType::Text { length } | ColumnType::Blob { length } => length as nat,
        }
    }

    /// Maps a serial-type code to its column type; codes 10 and 11 are reserved.
    pub fn from_serial_type(code: u64) -> (r: Result<Self, Error>)
        ensures
            r == match column_type_of(code) {
                Some(t) => Ok(t),
                None => Err(Error::ReservedSerialType { code }),
            },
    {
        match code {
            0 => Ok(Self::Null),
            1 => Ok(Self::Integer { size: 1 }),
            2 => Ok(Self::Integer { size: 2 }),
            3 => Ok(Self::Integer { size: 3 }),
            4 => Ok(Self::Integer { size: 4 }),
            5 => Ok(Self::Integer { size: 6 }),
            6 => Ok(Self::Integer { size: 8 }),
            7 => Ok(Self::Real),
            8 => Ok(Self::ConstantZero),
            9 => Ok(Self::ConstantOne),
            10 | 11 => Err(Error::ReservedSerialType { code }),
            n => {
                if n % 2 == 0 {
                    Ok(Self::Blob { length: (n - 12) / 2 })
                } else {
                    Ok(Self::Text { length: (n - 13) / 2 })
                }
            },
        }
    }

    /// Returns the size in bytes that this column occupies in the record data.
    pub fn data_size(&self) -> (r: u64)
        ensures
            r == self.width(),
    {
        match self {
            ColumnType::Null | ColumnType::ConstantZero | ColumnType::ConstantOne => 0,
            ColumnType::Integer { size } => *size as u64,
            ColumnType::Real => 8,
            ColumnType::Text { length } | ColumnType::Blob { length } => *length,
        }
    }
}

/// Every code but 10 and 11 maps to a column type, and that type's width is
/// the size that the file format gives for the code.
pub proof fn lemma_serial_type_sizes(code: u64)
    ensures
        column_type_of(code) is Some <==> (code != 10 && code != 11),
        column_type_of(code) matches Some(t) ==> t.width() == serial_size(code),
{
}

/// The column types and the offset where column data begins.
#[derive(Debug, Clone, PartialEq)]
pub struct RecordHeader {
    pub column_types: Vec<ColumnType>,
    pub data_start_offset: usize,
}

/// `pre` in front of the types of `r`, or the error of `r`.
pub open spec fn prefixed(pre: Seq<ColumnType>, r: Result<Seq<ColumnType>, Error>) -> Result<
    Seq<ColumnType>,
    Error,
> {
    match r {
        Ok(s) => Ok(pre + s),
        Err(e) => Err(e),
    }
}

/// The serial types read one after another from `off` up to exactly `end`.
pub open spec fn serial_types_from(b: Seq<u8>, off: int, end: int) -> Result<
    Seq<ColumnType>,
    Error,
>
    decreases b.len() - off,
{
    if off >= end {
        if off == end {
            Ok(seq![])
        } else {
            Err(Error::RecordHeaderInconsistent)
        }
    } else {
        match varint_at(b, off) {
            Err(e) => Err(e),
            Ok((code, n)) => match column_type_of(code) {
                None => Err(Error::ReservedSerialType { code }),
                Some(t) => {
                    proof {
                        lemma_varint_at_bounds(b, off);
                    }
                    prefixed(seq![t], serial_types_from(b, off + n, end))
                },
            },
        }
    }
}

/// The record header that starts at `start`: its column types and where the
/// column data begins.
pub open spec fn record_header_at(b: Seq<u8>, start: int) -> Result<(Seq<ColumnType>, int), Error> {
    match varint_at(b, start) {
        Err(e) => Err(e),
        Ok((size, n)) => if start + size > b.len() {
            Err(Error::RecordHeaderInconsistent)
        } else {
            match serial_types_from(b, start + n, start + size) {
                Ok(ts) => Ok((ts, start + size)),
                Err(e) => Err(e),
            }
        },
    }
}

impl RecordHeader {
    /// Reads the record header at `record_start`: the header size (counted
    /// from `record_start`), then serial types until exactly that boundary.
    pub fn parse(buffer: &[u8], record_start: usize) -> (r: Result<Self, Error>)
        ensures
            match record_header_at(buffer@, record_start as int) {
                Ok((ts, start)) => r matches Ok(h) && h.column_types@ == ts && h.data_start_offset
                    == start,
                Err(e) => r == Err::<Self, Error>(e),
            },
    {
        let (header_size, consumed) = match read_varint_at(buffer, record_start) {
            Ok(v) => v,
            Err(e) => return Err(e),
        };
        proof {
            lemma_varint_at_bounds(buffer@, record_start as int);
        }
        if header_size > (buffer.len() - record_start) as u64 {
            return Err(Error::RecordHeaderInconsistent);
        }
        let header_end = record_start + header_size as usize;
        let mut offset = record_start + consumed;
        let mut column_types: Vec<ColumnType> = Vec::new();
        let ghost first = offset as int;
        while offset < header_end
            invariant
                header_end <= buffer.len(),
                offset <= buffer.len(),
                record_header_at(buffer@, record_start as int) == match serial_types_from(
                    buffer@,
                    first,
                    header_end as int,
                ) {
                    Ok(ts) => Ok((ts, header_end as int)),
                    Err(e) => Err(e),
                },
                serial_types_from(buffer@, first, header_end as int) == prefixed(
                    column_types@,
                    serial_types_from(buffer@, offset as int, header_end as int),
                ),
            decreases buffer.len() - offset,
        {
            let (code, n) = match read_varint_at(buffer, offset) {
                Ok(v) => v,
                Err(e) => {
                    return Err(e);
                },
            };
            proof {
                lemma_varint_at_bounds(buffer@, offset as int);
            }
            let t = match ColumnType::from_serial_type(code) {
                Ok(t) => t,
                Err(e) => {
                    return Err(e);
                },
            };
            proof {
                let rest = serial_types_from(buffer@, offset + n, header_end as int);
                assert(prefixed(column_types@, prefixed(seq![t], rest)) == prefixed(
                    column_types@.push(t),
                    rest,
                )) by {
                    if let Ok(s) = rest {
                        assert(column_types@ + (seq![t] + s) =~= column_types@.push(t) + s);
                    }
                }
            }
            column_types.push(t);
            offset = offset + n;
        }
        if offset != header_end {
            return Err(Error::RecordHeaderInconsistent);
        }
        proof {
            assert(column_types@ + seq![] =~= column_types@);
        }
        Ok(RecordHeader { column_types, data_start_offset: header_end })
    }

    pub fn column_count(&self) -> (r: usize)
        ensures
            r == self.column_types@.len(),
    {
        self.column_types.len()
    }
}

} // verus!
