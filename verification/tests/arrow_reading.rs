use query_core::arrow::deserialize::{
    can_convert_int96, convert_int96, days_to_millis, dict_read, page_iter_to_arrays, scale,
    timestamp, timestamp_dict, unify_timestamp_unit, Conversion, DataType, DictReader,
    IntegerType, IntervalUnit, ParquetTimeUnit, PhysicalType, PrimitiveLogicalType, ReadError,
    Reader, TimeUnit,
};
use query_core::arrow::int96::{
    int96_fits_ns, int96_fits_us, int96_to_i64_ms, int96_to_i64_s, int96_to_i64_us,
};

const EPOCH_DAY: u32 = 2_440_588;

fn stored(nanos_of_day: u64, day: u32) -> [u32; 3] {
    [nanos_of_day as u32, (nanos_of_day >> 32) as u32, day]
}

#[test]
fn int96_at_the_epoch_is_zero() {
    let value = stored(0, EPOCH_DAY);
    assert_eq!(int96_to_i64_us(value), 0);
    assert_eq!(int96_to_i64_ms(value), 0);
    assert_eq!(int96_to_i64_s(value), 0);
}

#[test]
fn int96_counts_days_and_cuts_the_time_of_day() {
    // One day and 1.5 seconds and 999 nanoseconds after the epoch.
    let value = stored(1_500_000_999, EPOCH_DAY + 1);
    assert_eq!(int96_to_i64_us(value), 86_400_000_000 + 1_500_000);
    assert_eq!(int96_to_i64_ms(value), 86_400_000 + 1_500);
    assert_eq!(int96_to_i64_s(value), 86_400 + 1);
}

#[test]
fn int96_before_the_epoch_is_negative() {
    let value = stored(0, EPOCH_DAY - 2);
    assert_eq!(int96_to_i64_us(value), -2 * 86_400_000_000);
    assert_eq!(int96_to_i64_ms(value), -2 * 86_400_000);
    assert_eq!(int96_to_i64_s(value), -2 * 86_400);
}

#[test]
fn int96_time_of_day_with_the_high_bit_is_negative() {
    // The two words read as one signed number: all bits set is minus one.
    let value = [u32::MAX, u32::MAX, EPOCH_DAY];
    assert_eq!(int96_to_i64_s(value), 0);
    assert_eq!(int96_to_i64_ms(value), 0);
    let value = [0, u32::MAX, EPOCH_DAY];
    assert_eq!(int96_to_i64_s(value), -4);
    assert_eq!(int96_to_i64_ms(value), -4_294);
    assert_eq!(int96_to_i64_us(value), -4_294_967);
}

#[test]
fn int96_range_checks() {
    assert!(int96_fits_us(stored(0, EPOCH_DAY)));
    assert!(int96_fits_ns(stored(0, EPOCH_DAY)));
    assert!(!int96_fits_us(stored(0, u32::MAX)));
    assert!(!int96_fits_ns(stored(0, u32::MAX)));
    // About 292 years of nanoseconds fit in 64 bits.
    assert!(int96_fits_ns(stored(0, EPOCH_DAY + 106_000)));
    assert!(!int96_fits_ns(stored(0, EPOCH_DAY + 107_000)));
    assert!(can_convert_int96(stored(0, u32::MAX), TimeUnit::Second));
    assert!(!can_convert_int96(stored(0, u32::MAX), TimeUnit::Nanosecond));
}

#[test]
fn int96_nanoseconds_come_from_the_parquet_library() {
    let value = stored(1_500_000_999, EPOCH_DAY + 1);
    assert_eq!(convert_int96(value, TimeUnit::Nanosecond), 86_400_000_000_000 + 1_500_000_999);
    assert_eq!(convert_int96(value, TimeUnit::Microsecond), 86_400_000_000 + 1_500_000);
    assert_eq!(convert_int96(value, TimeUnit::Millisecond), 86_400_000 + 1_500);
    assert_eq!(convert_int96(value, TimeUnit::Second), 86_400 + 1);
}

#[test]
fn timestamp_units_are_unified() {
    let ts = |unit| Some(PrimitiveLogicalType::Timestamp { unit, is_adjusted_to_utc: true });
    assert_eq!(unify_timestamp_unit(&None, TimeUnit::Second), (1, true));
    assert_eq!(unify_timestamp_unit(&Some(PrimitiveLogicalType::Other), TimeUnit::Second), (1, true));
    assert_eq!(unify_timestamp_unit(&ts(ParquetTimeUnit::Milliseconds), TimeUnit::Millisecond), (1, true));
    assert_eq!(unify_timestamp_unit(&ts(ParquetTimeUnit::Milliseconds), TimeUnit::Second), (1_000, false));
    assert_eq!(unify_timestamp_unit(&ts(ParquetTimeUnit::Microseconds), TimeUnit::Second), (1_000_000, false));
    assert_eq!(unify_timestamp_unit(&ts(ParquetTimeUnit::Nanoseconds), TimeUnit::Second), (1_000_000_000, false));
    assert_eq!(unify_timestamp_unit(&ts(ParquetTimeUnit::Nanoseconds), TimeUnit::Millisecond), (1_000_000, false));
    assert_eq!(unify_timestamp_unit(&ts(ParquetTimeUnit::Nanoseconds), TimeUnit::Microsecond), (1_000, false));
    assert_eq!(unify_timestamp_unit(&ts(ParquetTimeUnit::Milliseconds), TimeUnit::Microsecond), (1_000, true));
    assert_eq!(unify_timestamp_unit(&ts(ParquetTimeUnit::Milliseconds), TimeUnit::Nanosecond), (1_000_000, true));
    assert_eq!(unify_timestamp_unit(&ts(ParquetTimeUnit::Microseconds), TimeUnit::Nanosecond), (1_000, true));
}

#[test]
fn timestamp_reader_by_storage() {
    let micros = Some(PrimitiveLogicalType::Timestamp {
        unit: ParquetTimeUnit::Microseconds,
        is_adjusted_to_utc: false,
    });
    assert_eq!(
        timestamp(&PhysicalType::Int96, &None, TimeUnit::Millisecond),
        Ok(Reader::Primitive(Conversion::Int96(TimeUnit::Millisecond)))
    );
    assert_eq!(
        timestamp(&PhysicalType::Int64, &micros, TimeUnit::Microsecond),
        Ok(Reader::Integer(Conversion::Keep))
    );
    assert_eq!(
        timestamp(&PhysicalType::Int64, &micros, TimeUnit::Nanosecond),
        Ok(Reader::Integer(Conversion::Multiply(1_000)))
    );
    assert_eq!(
        timestamp(&PhysicalType::Int64, &micros, TimeUnit::Second),
        Ok(Reader::Integer(Conversion::Divide(1_000_000)))
    );
    assert_eq!(
        timestamp(&PhysicalType::Int32, &micros, TimeUnit::Second),
        Err(ReadError::TimestampNotInt64)
    );
    assert_eq!(
        timestamp_dict(&PhysicalType::Int96, &None, TimeUnit::Millisecond),
        DictReader::Primitive(Conversion::Int96NanosOver(1_000_000))
    );
    assert_eq!(
        timestamp_dict(&PhysicalType::Int64, &micros, TimeUnit::Microsecond),
        DictReader::Primitive(Conversion::Multiply(1))
    );
}

#[test]
fn readers_by_type() {
    let read = |p: PhysicalType, d: DataType| page_iter_to_arrays(&p, &None, &d);
    assert_eq!(read(PhysicalType::Double, DataType::Null), Ok(Reader::Null));
    assert_eq!(read(PhysicalType::Boolean, DataType::Boolean), Ok(Reader::Boolean));
    assert_eq!(
        read(PhysicalType::Int32, DataType::UInt8),
        Ok(Reader::Integer(Conversion::Narrow(IntegerType::UInt8)))
    );
    assert_eq!(
        read(PhysicalType::Int64, DataType::UInt32),
        Ok(Reader::Integer(Conversion::Narrow(IntegerType::UInt32)))
    );
    assert_eq!(read(PhysicalType::Int32, DataType::Date32), Ok(Reader::Integer(Conversion::Keep)));
    assert_eq!(
        read(PhysicalType::Int32, DataType::Date64),
        Ok(Reader::Integer(Conversion::DaysToMillis))
    );
    assert_eq!(
        read(PhysicalType::Int64, DataType::Duration(TimeUnit::Second)),
        Ok(Reader::Integer(Conversion::Keep))
    );
    assert_eq!(read(PhysicalType::Float, DataType::Float32), Ok(Reader::Primitive(Conversion::Keep)));
    assert_eq!(read(PhysicalType::ByteArray, DataType::Utf8), Ok(Reader::Binary32));
    assert_eq!(read(PhysicalType::ByteArray, DataType::LargeBinary), Ok(Reader::Binary64));
    assert_eq!(
        read(PhysicalType::FixedLenByteArray(12), DataType::Interval(IntervalUnit::DayTime)),
        Ok(Reader::IntervalDayTime)
    );
    assert_eq!(
        read(PhysicalType::FixedLenByteArray(11), DataType::Interval(IntervalUnit::DayTime)),
        Err(ReadError::NotYetImplemented)
    );
    assert_eq!(
        read(PhysicalType::FixedLenByteArray(3), DataType::FixedSizeBinary(3)),
        Ok(Reader::FixedSizeBinary)
    );
    assert_eq!(read(PhysicalType::Int64, DataType::Int8), Err(ReadError::NotYetImplemented));
    assert_eq!(read(PhysicalType::Int32, DataType::Nested), Err(ReadError::NotYetImplemented));
    assert_eq!(
        read(PhysicalType::Int32, DataType::Extension(Box::new(DataType::Int16))),
        Ok(Reader::Integer(Conversion::Narrow(IntegerType::Int16)))
    );
}

#[test]
fn decimal_readers_by_width() {
    let read = |p: PhysicalType, d: DataType| page_iter_to_arrays(&p, &None, &d);
    assert_eq!(
        read(PhysicalType::Int32, DataType::Decimal(9, 2)),
        Ok(Reader::Integer(Conversion::Widen128))
    );
    assert_eq!(
        read(PhysicalType::FixedLenByteArray(16), DataType::Decimal(38, 2)),
        Ok(Reader::DecimalFromBytes(16))
    );
    assert_eq!(
        read(PhysicalType::FixedLenByteArray(17), DataType::Decimal(38, 2)),
        Err(ReadError::DecimalTooWide(17))
    );
    assert_eq!(
        read(PhysicalType::Int64, DataType::Decimal256(40, 2)),
        Ok(Reader::Integer(Conversion::Widen256))
    );
    assert_eq!(
        read(PhysicalType::FixedLenByteArray(16), DataType::Decimal256(40, 2)),
        Ok(Reader::Decimal256FromBytes(16))
    );
    assert_eq!(
        read(PhysicalType::FixedLenByteArray(32), DataType::Decimal256(40, 2)),
        Ok(Reader::Decimal256FromWideBytes(32))
    );
    assert_eq!(
        read(PhysicalType::FixedLenByteArray(33), DataType::Decimal256(40, 2)),
        Err(ReadError::Decimal256TooWide(33))
    );
}

#[test]
fn dictionary_readers() {
    let dict = |values: DataType| DataType::Dictionary(IntegerType::UInt16, Box::new(values));
    assert_eq!(
        page_iter_to_arrays(&PhysicalType::ByteArray, &None, &dict(DataType::Utf8)),
        Ok(Reader::Dictionary(IntegerType::UInt16, DictReader::Binary32))
    );
    assert_eq!(
        dict_read(&PhysicalType::Int32, &None, &dict(DataType::UInt8)),
        Ok(Reader::Dictionary(
            IntegerType::UInt16,
            DictReader::Primitive(Conversion::Narrow(IntegerType::UInt8))
        ))
    );
    assert_eq!(
        dict_read(&PhysicalType::Int32, &None, &dict(DataType::Interval(IntervalUnit::YearMonth))),
        Ok(Reader::Dictionary(IntegerType::UInt16, DictReader::Primitive(Conversion::Keep)))
    );
    assert_eq!(
        dict_read(&PhysicalType::Int64, &None, &dict(DataType::Timestamp(TimeUnit::Second))),
        Ok(Reader::Dictionary(IntegerType::UInt16, DictReader::Primitive(Conversion::Multiply(1))))
    );
    assert_eq!(
        dict_read(&PhysicalType::Int96, &None, &dict(DataType::Timestamp(TimeUnit::Second))),
        Err(ReadError::DictionaryNotYetImplemented)
    );
    assert_eq!(
        dict_read(&PhysicalType::Boolean, &None, &dict(DataType::Boolean)),
        Err(ReadError::DictionaryNotYetImplemented)
    );
}

#[test]
fn stored_values_are_scaled() {
    assert_eq!(days_to_millis(2), 172_800_000);
    assert_eq!(days_to_millis(-1), -86_400_000);
    assert_eq!(scale(7, Conversion::Keep), Some(7));
    assert_eq!(scale(7, Conversion::Multiply(1_000)), Some(7_000));
    assert_eq!(scale(i64::MAX, Conversion::Multiply(1_000)), None);
    assert_eq!(scale(-7_001, Conversion::Divide(1_000)), Some(-7));
    assert_eq!(scale(7, Conversion::Widen128), None);
}

#[test]
fn read_errors_say_what_could_not_be_read() {
    assert_eq!(
        ReadError::DecimalTooWide(17).message(),
        "Can't decode Decimal128 type from Fixed Size Byte Array of len 17"
    );
    assert_eq!(
        ReadError::Decimal256TooWide(33).message(),
        "Can't decode Decimal256 type from Fixed Size Byte Array of len 33"
    );
    assert_eq!(
        ReadError::TimestampNotInt64.message(),
        "Can't decode a timestamp from a non-int64 parquet type"
    );
    assert_eq!(
        ReadError::NotYetImplemented.message(),
        "Reading this parquet type to this type still not implemented"
    );
    assert_eq!(ReadError::DictionaryNotYetImplemented.message(), "Reading dictionaries of this type");
}
