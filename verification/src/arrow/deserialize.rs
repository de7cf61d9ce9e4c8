//! Which reader turns the pages of a stored column into arrays of the type
//! asked for, and how each stored value becomes the value in memory.

use vstd::prelude::*;
use vstd::string::StringExecFns;
use crate::base::{decimal, decimal_text};
use crate::arrow::int96::{
    day_nanos, div_toward_zero, epoch_seconds, int96_to_i64_ms, int96_to_i64_ns, int96_to_i64_s,
    int96_to_i64_us, micros_fit, nanos_fit,
};

verus! {

/// How a column is stored.
#[derive(Clone, Copy, Debug, PartialEq, Eq, Structural)]
pub enum PhysicalType {
    Boolean,
    Int32,
    Int64,
    Int96,
    Float,
    Double,
    ByteArray,
    FixedLenByteArray(usize),
}

#[derive(Clone, Copy, Debug, PartialEq, Eq, Structural)]
pub enum TimeUnit {
    Second,
    Millisecond,
    Microsecond,
    Nanosecond,
}

/// The unit of a stored timestamp.
#[derive(Clone, Copy, Debug, PartialEq, Eq, Structural)]
pub enum ParquetTimeUnit {
    Milliseconds,
    Microseconds,
    Nanoseconds,
}

#[derive(Clone, Copy, Debug, PartialEq, Eq, Structural)]
pub enum IntervalUnit {
    YearMonth,
    DayTime,
    MonthDayNano,
}

/// The type of the keys of a dictionary.
#[derive(Clone, Copy, Debug, PartialEq, Eq, Structural)]
pub enum IntegerType {
    Int8,
    Int16,
    Int32,
    Int64,
    UInt8,
    UInt16,
    UInt32,
    UInt64,
}

/// What the file says the stored values mean.
#[derive(Clone, Copy, Debug, PartialEq, Eq, Structural)]
pub enum PrimitiveLogicalType {
    Timestamp { unit: ParquetTimeUnit, is_adjusted_to_utc: bool },
    Other,
}

/// The type of the arrays asked for.
#[derive(Debug, PartialEq, Eq)]
pub enum DataType {
    Null,
    Boolean,
    Int8,
    Int16,
    Int32,
    Int64,
    UInt8,
    UInt16,
    UInt32,
    UInt64,
    Float32,
    Float64,
    Timestamp(TimeUnit),
    Date32,
    Date64,
    Time32(TimeUnit),
    Time64(TimeUnit),
    Duration(TimeUnit),
    Interval(IntervalUnit),
    Binary,
    FixedSizeBinary(usize),
    LargeBinary,
    Utf8,
    LargeUtf8,
    Decimal(usize, usize),
    Decimal256(usize, usize),
    /// Values of the second type, held once each and referred to by keys.
    Dictionary(IntegerType, Box<DataType>),
    /// A type under a name of its own.
    Extension(Box<DataType>),
    /// A list, a struct or another type made of types.
    Nested,
}

impl DataType {
    /// The type that an extension type stands for, however deep; any other
    /// type stands for itself.
    pub open spec fn logical(&self) -> DataType
        decreases self,
    {
        match self {
            DataType::Extension(inner) => inner.logical(),
            _ => *self,
        }
    }

    pub fn to_logical_type(&self) -> (logical: &DataType)
        ensures
            *logical == self.logical(),
        decreases self,
    {
        match self {
            DataType::Extension(inner) => inner.to_logical_type(),
            _ => self,
        }
    }
}

/// How a stored value becomes the value in memory.
#[derive(Clone, Copy, Debug, PartialEq, Eq, Structural)]
pub enum Conversion {
    /// The value as it is.
    Keep,
    /// The low bits of the value, read as the integer type named.
    Narrow(IntegerType),
    /// The value as a 128-bit number.
    Widen128,
    /// The value as a 256-bit number.
    Widen256,
    /// Days since the epoch, as milliseconds.
    DaysToMillis,
    /// The value times a factor.
    Multiply(i64),
    /// The value divided by a factor, rounded toward zero.
    Divide(i64),
    /// A 96-bit timestamp in the unit named.
    Int96(TimeUnit),
    /// The nanoseconds of a 96-bit timestamp, times a factor.
    Int96NanosTimes(i64),
    /// The nanoseconds of a 96-bit timestamp, divided by a factor.
    Int96NanosOver(i64),
}

/// The reader of the values of a dictionary.
#[derive(Clone, Copy, Debug, PartialEq, Eq, Structural)]
pub enum DictReader {
    Primitive(Conversion),
    Binary32,
    Binary64,
    FixedSizeBinary,
}

/// The reader of a column.
#[derive(Clone, Copy, Debug, PartialEq, Eq, Structural)]
pub enum Reader {
    Null,
    Boolean,
    /// Reads stored integers, whatever their encoding.
    Integer(Conversion),
    /// Reads stored values of fixed width that are not integers.
    Primitive(Conversion),
    FixedSizeBinary,
    /// Reads twelve stored bytes as months.
    IntervalYearMonth,
    /// Reads twelve stored bytes as days and milliseconds.
    IntervalDayTime,
    /// Reads so many stored bytes as a 128-bit decimal.
    DecimalFromBytes(usize),
    /// Reads so many stored bytes, at most sixteen, as a 256-bit decimal.
    Decimal256FromBytes(usize),
    /// Reads so many stored bytes, more than sixteen, as a 256-bit decimal.
    Decimal256FromWideBytes(usize),
    /// Reads texts or byte strings with 32-bit offsets.
    Binary32,
    /// Reads texts or byte strings with 64-bit offsets.
    Binary64,
    Dictionary(IntegerType, DictReader),
}

/// Why a column cannot be read as the type asked for.
#[derive(Clone, Copy, Debug, PartialEq, Eq, Structural)]
pub enum ReadError {
    /// No reader turns this storage into this type.
    NotYetImplemented,
    /// So many stored bytes do not fit a 128-bit decimal.
    DecimalTooWide(usize),
    /// So many stored bytes do not fit a 256-bit decimal.
    Decimal256TooWide(usize),
    /// A timestamp is stored neither in 64 nor in 96 bits.
    TimestampNotInt64,
    /// No reader turns this storage into a dictionary of this type.
    DictionaryNotYetImplemented,
}

impl ReadError {
    /// What the error says to whoever asked for the column.
    pub open spec fn message_text(self) -> Seq<char> {
        match self {
            ReadError::NotYetImplemented => "Reading this parquet type to this type still not implemented"@,
            ReadError::DecimalTooWide(n) => {
                "Can't decode Decimal128 type from Fixed Size Byte Array of len "@ + decimal(
                    n as nat,
                )
            },
            ReadError::Decimal256TooWide(n) => {
                "Can't decode Decimal256 type from Fixed Size Byte Array of len "@ + decimal(
                    n as nat,
                )
            },
            ReadError::TimestampNotInt64 => "Can't decode a timestamp from a non-int64 parquet type"@,
            ReadError::DictionaryNotYetImplemented => "Reading dictionaries of this type"@,
        }
    }

    /// The error in words.
    pub fn message(&self) -> (text: String)
        ensures
            text@ == self.message_text(),
    {
        match self {
            ReadError::NotYetImplemented => String::from_str(
                "Reading this parquet type to this type still not implemented",
            ),
            ReadError::DecimalTooWide(n) => {
                let mut text: String = String::from_str(
                    "Can't decode Decimal128 type from Fixed Size Byte Array of len ",
                );
                let digits: String = decimal_text(*n as u64);
                text.append(digits.as_str());
                text
            },
            ReadError::Decimal256TooWide(n) => {
                let mut text: String = String::from_str(
                    "Can't decode Decimal256 type from Fixed Size Byte Array of len ",
                );
                let digits: String = decimal_text(*n as u64);
                text.append(digits.as_str());
                text
            },
            ReadError::TimestampNotInt64 => String::from_str(
                "Can't decode a timestamp from a non-int64 parquet type",
            ),
            ReadError::DictionaryNotYetImplemented => String::from_str(
                "Reading dictionaries of this type",
            ),
        }
    }
}

/// The factor between the unit that timestamps are stored in and the unit
/// asked for, and whether stored values are multiplied by it or divided.
/// Timestamps that the file does not declare as such are taken as stored in
/// the unit asked for.
pub open spec fn unit_factor(logical_type: Option<PrimitiveLogicalType>, time_unit: TimeUnit) -> (
    i64,
    bool,
) {
    match logical_type {
        Some(PrimitiveLogicalType::Timestamp { unit, .. }) => {
            let stored = stored_exponent(unit);
            let wanted = wanted_exponent(time_unit);
            if stored <= wanted {
                (power_of_thousand(wanted - stored), true)
            } else {
                (power_of_thousand(stored - wanted), false)
            }
        },
        _ => (1, true),
    }
}

/// How many times a thousand fits into a second divided by the unit.
pub open spec fn stored_exponent(unit: ParquetTimeUnit) -> int {
    match unit {
        ParquetTimeUnit::Milliseconds => 1,
        ParquetTimeUnit::Microseconds => 2,
        ParquetTimeUnit::Nanoseconds => 3,
    }
}

/// How many times a thousand fits into a second divided by the unit.
pub open spec fn wanted_exponent(unit: TimeUnit) -> int {
    match unit {
        TimeUnit::Second => 0,
        TimeUnit::Millisecond => 1,
        TimeUnit::Microsecond => 2,
        TimeUnit::Nanosecond => 3,
    }
}

pub open spec fn power_of_thousand(exponent: int) -> i64 {
    if exponent <= 0 {
        1
    } else if exponent == 1 {
        1_000
    } else if exponent == 2 {
        1_000_000
    } else {
        1_000_000_000
    }
}

/// Unifies the unit that timestamps are stored in with the unit asked for.
pub fn unify_timestamp_unit(logical_type: &Option<PrimitiveLogicalType>, time_unit: TimeUnit) -> (res:
    (i64, bool))
    ensures
        res == unit_factor(*logical_type, time_unit),
{
    match logical_type {
        Some(PrimitiveLogicalType::Timestamp { unit, .. }) => match (*unit, time_unit) {
            (ParquetTimeUnit::Milliseconds, TimeUnit::Millisecond)
            | (ParquetTimeUnit::Microseconds, TimeUnit::Microsecond)
            | (ParquetTimeUnit::Nanoseconds, TimeUnit::Nanosecond) => (1, true),
            (ParquetTimeUnit::Milliseconds, TimeUnit::Second)
            | (ParquetTimeUnit::Microseconds, TimeUnit::Millisecond)
            | (ParquetTimeUnit::Nanoseconds, TimeUnit::Microsecond) => (1000, false),
            (ParquetTimeUnit::Microseconds, TimeUnit::Second)
            | (ParquetTimeUnit::Nanoseconds, TimeUnit::Millisecond) => (1_000_000, false),
            (ParquetTimeUnit::Nanoseconds, TimeUnit::Second) => (1_000_000_000, false),
            (ParquetTimeUnit::Milliseconds, TimeUnit::Microsecond)
            | (ParquetTimeUnit::Microseconds, TimeUnit::Nanosecond) => (1_000, true),
            (ParquetTimeUnit::Milliseconds, TimeUnit::Nanosecond) => (1_000_000, true),
        },
        _ => (1, true),
    }
}

/// The conversion that a factor stands for: none for the factor one.
pub open spec fn scaling(factor: (i64, bool)) -> Conversion {
    if factor.0 == 1 {
        Conversion::Keep
    } else if factor.1 {
        Conversion::Multiply(factor.0)
    } else {
        Conversion::Divide(factor.0)
    }
}

/// The reader of a column of timestamps: 96-bit timestamps are converted to
/// the unit asked for; 64-bit ones are scaled from the unit they are stored
/// in.
pub open spec fn timestamp_reader(
    physical_type: PhysicalType,
    logical_type: Option<PrimitiveLogicalType>,
    time_unit: TimeUnit,
) -> Result<Reader, ReadError> {
    match physical_type {
        PhysicalType::Int96 => Ok(Reader::Primitive(Conversion::Int96(time_unit))),
        PhysicalType::Int64 => Ok(Reader::Integer(scaling(unit_factor(logical_type, time_unit)))),
        _ => Err(ReadError::TimestampNotInt64),
    }
}

pub fn timestamp(
    physical_type: &PhysicalType,
    logical_type: &Option<PrimitiveLogicalType>,
    time_unit: TimeUnit,
) -> (res: Result<Reader, ReadError>)
    ensures
        res == timestamp_reader(*physical_type, *logical_type, time_unit),
{
    match physical_type {
        PhysicalType::Int96 => {
            return Ok(Reader::Primitive(Conversion::Int96(time_unit)));
        },
        PhysicalType::Int64 => {},
        _ => {
            return Err(ReadError::TimestampNotInt64);
        },
    }
    let (factor, is_multiplier) = unify_timestamp_unit(logical_type, time_unit);
    if factor == 1 {
        Ok(Reader::Integer(Conversion::Keep))
    } else if is_multiplier {
        Ok(Reader::Integer(Conversion::Multiply(factor)))
    } else {
        Ok(Reader::Integer(Conversion::Divide(factor)))
    }
}

/// The reader of the values of a dictionary of timestamps: 96-bit
/// timestamps are taken as nanoseconds and scaled; 64-bit ones are scaled
/// from the unit they are stored in. A factor of one is applied like any
/// other.
pub open spec fn timestamp_dict_reader(
    physical_type: PhysicalType,
    logical_type: Option<PrimitiveLogicalType>,
    time_unit: TimeUnit,
) -> DictReader {
    if physical_type == PhysicalType::Int96 {
        let factor = unit_factor(
            Some(
                PrimitiveLogicalType::Timestamp {
                    unit: ParquetTimeUnit::Nanoseconds,
                    is_adjusted_to_utc: false,
                },
            ),
            time_unit,
        );
        DictReader::Primitive(
            if factor.1 {
                Conversion::Int96NanosTimes(factor.0)
            } else {
                Conversion::Int96NanosOver(factor.0)
            },
        )
    } else {
        let factor = unit_factor(logical_type, time_unit);
        DictReader::Primitive(
            if factor.1 {
                Conversion::Multiply(factor.0)
            } else {
                Conversion::Divide(factor.0)
            },
        )
    }
}

pub fn timestamp_dict(
    physical_type: &PhysicalType,
    logical_type: &Option<PrimitiveLogicalType>,
    time_unit: TimeUnit,
) -> (reader: DictReader)
    ensures
        reader == timestamp_dict_reader(*physical_type, *logical_type, time_unit),
{
    match physical_type {
        PhysicalType::Int96 => {
            let logical = PrimitiveLogicalType::Timestamp {
                unit: ParquetTimeUnit::Nanoseconds,
                is_adjusted_to_utc: false,
            };
            let (factor, is_multiplier) = unify_timestamp_unit(&Some(logical), time_unit);
            if is_multiplier {
                DictReader::Primitive(Conversion::Int96NanosTimes(factor))
            } else {
                DictReader::Primitive(Conversion::Int96NanosOver(factor))
            }
        },
        _ => {
            let (factor, is_multiplier) = unify_timestamp_unit(logical_type, time_unit);
            if is_multiplier {
                DictReader::Primitive(Conversion::Multiply(factor))
            } else {
                DictReader::Primitive(Conversion::Divide(factor))
            }
        },
    }
}

/// The reader that turns stored integers into the integer type asked for,
/// if the storage can hold that type.
pub open spec fn integer_conversion(physical_type: PhysicalType, wanted: DataType) -> Option<
    Conversion,
> {
    match (wanted, physical_type) {
        (DataType::UInt8, PhysicalType::Int32) => Some(Conversion::Narrow(IntegerType::UInt8)),
        (DataType::UInt16, PhysicalType::Int32) => Some(Conversion::Narrow(IntegerType::UInt16)),
        (DataType::UInt32, PhysicalType::Int32) => Some(Conversion::Narrow(IntegerType::UInt32)),
        (DataType::UInt64, PhysicalType::Int64) => Some(Conversion::Narrow(IntegerType::UInt64)),
        (DataType::Int8, PhysicalType::Int32) => Some(Conversion::Narrow(IntegerType::Int8)),
        (DataType::Int16, PhysicalType::Int32) => Some(Conversion::Narrow(IntegerType::Int16)),
        (DataType::Int32, PhysicalType::Int32) => Some(Conversion::Keep),
        (DataType::Date32, PhysicalType::Int32) => Some(Conversion::Keep),
        (DataType::Time32(_), PhysicalType::Int32) => Some(Conversion::Keep),
        (DataType::Int64, PhysicalType::Int64) => Some(Conversion::Keep),
        (DataType::Time64(_), PhysicalType::Int64) => Some(Conversion::Keep),
        (DataType::Duration(_), PhysicalType::Int64) => Some(Conversion::Keep),
        _ => None,
    }
}

/// The reader of the values of a dictionary column, by the type of the
/// values asked for.
pub open spec fn dict_reader_for(
    physical_type: PhysicalType,
    logical_type: Option<PrimitiveLogicalType>,
    values: DataType,
) -> Result<DictReader, ReadError> {
    match integer_conversion(physical_type, values) {
        Some(conversion) => Ok(DictReader::Primitive(conversion)),
        None => match (values, physical_type) {
            (DataType::Interval(IntervalUnit::YearMonth), PhysicalType::Int32) => Ok(
                DictReader::Primitive(Conversion::Keep),
            ),
            (DataType::Timestamp(unit), PhysicalType::Int64) => Ok(
                timestamp_dict_reader(physical_type, logical_type, unit),
            ),
            (DataType::Date64, PhysicalType::Int64) => Ok(DictReader::Primitive(Conversion::Keep)),
            (DataType::Float32, PhysicalType::Float) => Ok(DictReader::Primitive(Conversion::Keep)),
            (DataType::Float64, PhysicalType::Double) => Ok(DictReader::Primitive(Conversion::Keep)),
            (DataType::Utf8, PhysicalType::ByteArray) => Ok(DictReader::Binary32),
            (DataType::Binary, PhysicalType::ByteArray) => Ok(DictReader::Binary32),
            (DataType::LargeUtf8, PhysicalType::ByteArray) => Ok(DictReader::Binary64),
            (DataType::LargeBinary, PhysicalType::ByteArray) => Ok(DictReader::Binary64),
            (DataType::FixedSizeBinary(_), PhysicalType::FixedLenByteArray(_)) => Ok(
                DictReader::FixedSizeBinary,
            ),
            _ => Err(ReadError::DictionaryNotYetImplemented),
        },
    }
}

/// Picks the reader of a dictionary column.
pub fn dict_read(
    physical_type: &PhysicalType,
    logical_type: &Option<PrimitiveLogicalType>,
    data_type: &DataType,
) -> (res: Result<Reader, ReadError>)
    requires
        data_type is Dictionary,
    ensures
        data_type matches DataType::Dictionary(key, values) && res == (match dict_reader_for(
            *physical_type,
            *logical_type,
            values.logical(),
        ) {
            Ok(reader) => Ok::<Reader, ReadError>(Reader::Dictionary(*key, reader)),
            Err(e) => Err::<Reader, ReadError>(e),
        }),
{
    let (key, values_data_type) = match data_type {
        DataType::Dictionary(key, v) => (*key, v),
        _ => {
            return Err(ReadError::DictionaryNotYetImplemented);
        },
    };
    let keep = DictReader::Primitive(Conversion::Keep);
    let reader: DictReader = match (physical_type, values_data_type.to_logical_type()) {
        (PhysicalType::Int32, DataType::UInt8) => DictReader::Primitive(
            Conversion::Narrow(IntegerType::UInt8),
        ),
        (PhysicalType::Int32, DataType::UInt16) => DictReader::Primitive(
            Conversion::Narrow(IntegerType::UInt16),
        ),
        (PhysicalType::Int32, DataType::UInt32) => DictReader::Primitive(
            Conversion::Narrow(IntegerType::UInt32),
        ),
        (PhysicalType::Int64, DataType::UInt64) => DictReader::Primitive(
            Conversion::Narrow(IntegerType::UInt64),
        ),
        (PhysicalType::Int32, DataType::Int8) => DictReader::Primitive(
            Conversion::Narrow(IntegerType::Int8),
        ),
        (PhysicalType::Int32, DataType::Int16) => DictReader::Primitive(
            Conversion::Narrow(IntegerType::Int16),
        ),
        (PhysicalType::Int32, DataType::Int32) => keep,
        (PhysicalType::Int32, DataType::Date32) => keep,
        (PhysicalType::Int32, DataType::Time32(_)) => keep,
        (PhysicalType::Int32, DataType::Interval(IntervalUnit::YearMonth)) => keep,
        (PhysicalType::Int64, DataType::Timestamp(time_unit)) => timestamp_dict(
            physical_type,
            logical_type,
            *time_unit,
        ),
        (PhysicalType::Int64, DataType::Int64) => keep,
        (PhysicalType::Int64, DataType::Date64) => keep,
        (PhysicalType::Int64, DataType::Time64(_)) => keep,
        (PhysicalType::Int64, DataType::Duration(_)) => keep,
        (PhysicalType::Float, DataType::Float32) => keep,
        (PhysicalType::Double, DataType::Float64) => keep,
        (PhysicalType::ByteArray, DataType::Utf8) => DictReader::Binary32,
        (PhysicalType::ByteArray, DataType::Binary) => DictReader::Binary32,
        (PhysicalType::ByteArray, DataType::LargeUtf8) => DictReader::Binary64,
        (PhysicalType::ByteArray, DataType::LargeBinary) => DictReader::Binary64,
        (PhysicalType::FixedLenByteArray(_), DataType::FixedSizeBinary(_)) => {
            DictReader::FixedSizeBinary
        },
        _ => {
            return Err(ReadError::DictionaryNotYetImplemented);
        },
    };
    Ok(Reader::Dictionary(key, reader))
}

/// The reader of a column, by the type of the arrays asked for.
pub open spec fn reader_for(
    physical_type: PhysicalType,
    logical_type: Option<PrimitiveLogicalType>,
    wanted: DataType,
) -> Result<Reader, ReadError> {
    match wanted {
        DataType::Null => Ok(Reader::Null),
        DataType::Dictionary(key, values) => match dict_reader_for(
            physical_type,
            logical_type,
            values.logical(),
        ) {
            Ok(reader) => Ok(Reader::Dictionary(key, reader)),
            Err(e) => Err(e),
        },
        DataType::Timestamp(unit) => match physical_type {
            PhysicalType::Int64 | PhysicalType::Int96 => timestamp_reader(
                physical_type,
                logical_type,
                unit,
            ),
            _ => Err(ReadError::NotYetImplemented),
        },
        DataType::Decimal(_, _) => match physical_type {
            PhysicalType::Int32 | PhysicalType::Int64 => Ok(Reader::Integer(Conversion::Widen128)),
            PhysicalType::FixedLenByteArray(n) => if n > 16 {
                Err(ReadError::DecimalTooWide(n))
            } else {
                Ok(Reader::DecimalFromBytes(n))
            },
            _ => Err(ReadError::NotYetImplemented),
        },
        DataType::Decimal256(_, _) => match physical_type {
            PhysicalType::Int32 | PhysicalType::Int64 => Ok(Reader::Integer(Conversion::Widen256)),
            PhysicalType::FixedLenByteArray(n) => if n <= 16 {
                Ok(Reader::Decimal256FromBytes(n))
            } else if n <= 32 {
                Ok(Reader::Decimal256FromWideBytes(n))
            } else {
                Err(ReadError::Decimal256TooWide(n))
            },
            _ => Err(ReadError::NotYetImplemented),
        },
        _ => match simple_reader(physical_type, wanted) {
            Some(reader) => Ok(reader),
            None => Err(ReadError::NotYetImplemented),
        },
    }
}

/// The reader for the types that one storage each can hold.
pub open spec fn simple_reader(physical_type: PhysicalType, wanted: DataType) -> Option<Reader> {
    match (wanted, physical_type) {
        (DataType::Boolean, PhysicalType::Boolean) => Some(Reader::Boolean),
        (DataType::UInt32, PhysicalType::Int64) => Some(
            Reader::Integer(Conversion::Narrow(IntegerType::UInt32)),
        ),
        (DataType::FixedSizeBinary(_), PhysicalType::FixedLenByteArray(_)) => Some(
            Reader::FixedSizeBinary,
        ),
        (DataType::Interval(IntervalUnit::YearMonth), PhysicalType::FixedLenByteArray(n)) => if n
            == 12 {
            Some(Reader::IntervalYearMonth)
        } else {
            None
        },
        (DataType::Interval(IntervalUnit::DayTime), PhysicalType::FixedLenByteArray(n)) => if n
            == 12 {
            Some(Reader::IntervalDayTime)
        } else {
            None
        },
        (DataType::Date64, PhysicalType::Int32) => Some(Reader::Integer(Conversion::DaysToMillis)),
        (DataType::Date64, PhysicalType::Int64) => Some(Reader::Integer(Conversion::Keep)),
        (DataType::Float32, PhysicalType::Float) => Some(Reader::Primitive(Conversion::Keep)),
        (DataType::Float64, PhysicalType::Double) => Some(Reader::Primitive(Conversion::Keep)),
        (DataType::Utf8, PhysicalType::ByteArray) => Some(Reader::Binary32),
        (DataType::Binary, PhysicalType::ByteArray) => Some(Reader::Binary32),
        (DataType::LargeUtf8, PhysicalType::ByteArray) => Some(Reader::Binary64),
        (DataType::LargeBinary, PhysicalType::ByteArray) => Some(Reader::Binary64),
        _ => match integer_conversion(physical_type, wanted) {
            Some(conversion) => Some(Reader::Integer(conversion)),
            None => None,
        },
    }
}

/// Picks the reader that turns the pages of a stored column into arrays of
/// the type asked for.
pub fn page_iter_to_arrays(
    physical_type: &PhysicalType,
    logical_type: &Option<PrimitiveLogicalType>,
    data_type: &DataType,
) -> (res: Result<Reader, ReadError>)
    ensures
        res == reader_for(*physical_type, *logical_type, data_type.logical()),
{
    let narrow_u8 = Reader::Integer(Conversion::Narrow(IntegerType::UInt8));
    let narrow_u16 = Reader::Integer(Conversion::Narrow(IntegerType::UInt16));
    let narrow_u32 = Reader::Integer(Conversion::Narrow(IntegerType::UInt32));
    let narrow_u64 = Reader::Integer(Conversion::Narrow(IntegerType::UInt64));
    let narrow_i8 = Reader::Integer(Conversion::Narrow(IntegerType::Int8));
    let narrow_i16 = Reader::Integer(Conversion::Narrow(IntegerType::Int16));
    let keep = Reader::Integer(Conversion::Keep);
    let logical: &DataType = data_type.to_logical_type();
    Ok(
        match (physical_type, logical) {
            (_, DataType::Null) => Reader::Null,
            (PhysicalType::Boolean, DataType::Boolean) => Reader::Boolean,
            (PhysicalType::Int32, DataType::UInt8) => narrow_u8,
            (PhysicalType::Int32, DataType::UInt16) => narrow_u16,
            (PhysicalType::Int32, DataType::UInt32) => narrow_u32,
            (PhysicalType::Int64, DataType::UInt32) => narrow_u32,
            (PhysicalType::Int32, DataType::Int8) => narrow_i8,
            (PhysicalType::Int32, DataType::Int16) => narrow_i16,
            (PhysicalType::Int32, DataType::Int32) => keep,
            (PhysicalType::Int32, DataType::Date32) => keep,
            (PhysicalType::Int32, DataType::Time32(_)) => keep,
            (PhysicalType::Int64, DataType::Timestamp(time_unit)) => {
                return timestamp(physical_type, logical_type, *time_unit);
            },
            (PhysicalType::Int96, DataType::Timestamp(time_unit)) => {
                return timestamp(physical_type, logical_type, *time_unit);
            },
            (PhysicalType::FixedLenByteArray(_), DataType::FixedSizeBinary(_)) => {
                Reader::FixedSizeBinary
            },
            (PhysicalType::FixedLenByteArray(12), DataType::Interval(IntervalUnit::YearMonth)) => {
                Reader::IntervalYearMonth
            },
            (PhysicalType::FixedLenByteArray(12), DataType::Interval(IntervalUnit::DayTime)) => {
                Reader::IntervalDayTime
            },
            (PhysicalType::Int32, DataType::Decimal(_, _)) => Reader::Integer(Conversion::Widen128),
            (PhysicalType::Int64, DataType::Decimal(_, _)) => Reader::Integer(Conversion::Widen128),
            (PhysicalType::FixedLenByteArray(n), DataType::Decimal(_, _)) => {
                if *n > 16 {
                    return Err(ReadError::DecimalTooWide(*n));
                }
                Reader::DecimalFromBytes(*n)
            },
            (PhysicalType::Int32, DataType::Decimal256(_, _)) => Reader::Integer(
                Conversion::Widen256,
            ),
            (PhysicalType::Int64, DataType::Decimal256(_, _)) => Reader::Integer(
                Conversion::Widen256,
            ),
            (PhysicalType::FixedLenByteArray(n), DataType::Decimal256(_, _)) => {
                if *n <= 16 {
                    Reader::Decimal256FromBytes(*n)
                } else if *n <= 32 {
                    Reader::Decimal256FromWideBytes(*n)
                } else {
                    return Err(ReadError::Decimal256TooWide(*n));
                }
            },
            (PhysicalType::Int32, DataType::Date64) => Reader::Integer(Conversion::DaysToMillis),
            (PhysicalType::Int64, DataType::Date64) => keep,
            (PhysicalType::Int64, DataType::Int64) => keep,
            (PhysicalType::Int64, DataType::Time64(_)) => keep,
            (PhysicalType::Int64, DataType::Duration(_)) => keep,
            (PhysicalType::Int64, DataType::UInt64) => narrow_u64,
            (PhysicalType::Float, DataType::Float32) => Reader::Primitive(Conversion::Keep),
            (PhysicalType::Double, DataType::Float64) => Reader::Primitive(Conversion::Keep),
            (PhysicalType::ByteArray, DataType::Utf8) => Reader::Binary32,
            (PhysicalType::ByteArray, DataType::Binary) => Reader::Binary32,
            (PhysicalType::ByteArray, DataType::LargeBinary) => Reader::Binary64,
            (PhysicalType::ByteArray, DataType::LargeUtf8) => Reader::Binary64,
            (_, DataType::Dictionary(_, _)) => {
                return dict_read(physical_type, logical_type, logical);
            },
            _ => {
                return Err(ReadError::NotYetImplemented);
            },
        },
    )
}

/// Days since the epoch as milliseconds.
pub fn days_to_millis(days: i32) -> (millis: i64)
    ensures
        millis == days * 86_400_000,
{
    (days as i64) * 86_400_000
}

/// A 96-bit timestamp in the unit asked for.
pub open spec fn int96_in(value: [u32; 3], unit: TimeUnit) -> int {
    match unit {
        TimeUnit::Nanosecond => epoch_seconds(value) * 1_000_000_000 + day_nanos(value),
        TimeUnit::Microsecond => epoch_seconds(value) * 1_000_000 + div_toward_zero(
            day_nanos(value),
            1_000,
        ),
        TimeUnit::Millisecond => epoch_seconds(value) * 1_000 + div_toward_zero(
            day_nanos(value),
            1_000_000,
        ),
        TimeUnit::Second => epoch_seconds(value) + div_toward_zero(day_nanos(value), 1_000_000_000),
    }
}

/// Whether a 96-bit timestamp can be had in a unit without leaving 64 bits.
pub open spec fn int96_fits(value: [u32; 3], unit: TimeUnit) -> bool {
    match unit {
        TimeUnit::Nanosecond => nanos_fit(value),
        TimeUnit::Microsecond => micros_fit(value),
        _ => true,
    }
}

/// Converts a 96-bit timestamp to the unit asked for.
pub fn convert_int96(value: [u32; 3], unit: TimeUnit) -> (out: i64)
    requires
        int96_fits(value, unit),
    ensures
        out == int96_in(value, unit),
{
    match unit {
        TimeUnit::Nanosecond => int96_to_i64_ns(value),
        TimeUnit::Microsecond => int96_to_i64_us(value),
        TimeUnit::Millisecond => int96_to_i64_ms(value),
        TimeUnit::Second => int96_to_i64_s(value),
    }
}

/// Says whether `convert_int96` can take a value.
pub fn can_convert_int96(value: [u32; 3], unit: TimeUnit) -> (ok: bool)
    ensures
        ok == int96_fits(value, unit),
{
    match unit {
        TimeUnit::Nanosecond => crate::arrow::int96::int96_fits_ns(value),
        TimeUnit::Microsecond => crate::arrow::int96::int96_fits_us(value),
        _ => true,
    }
}

/// Scales a stored 64-bit timestamp: by a factor, up or down. Where the
/// product leaves 64 bits there is no value.
pub fn scale(value: i64, conversion: Conversion) -> (out: Option<i64>)
    requires
        conversion matches Conversion::Divide(d) ==> d > 0,
    ensures
        out == (match conversion {
            Conversion::Keep => Some(value),
            Conversion::Multiply(a) => if i64::MIN <= value * a <= i64::MAX {
                Some((value * a) as i64)
            } else {
                None
            },
            Conversion::Divide(d) => Some(div_toward_zero(value as int, d as int) as i64),
            _ => None,
        }),
{
    match conversion {
        Conversion::Keep => Some(value),
        Conversion::Multiply(a) => value.checked_mul(a),
        Conversion::Divide(d) => Some(value / d),
        _ => None,
    }
}

} // verus!
