use exif::util::atou16;
use exif::{DateTime, Error};

#[test]
fn date_and_time_are_read() {
    let dt = DateTime::from_ascii(b"2016:05:04 03:02:01").unwrap();
    assert_eq!(dt.year, 2016);
    assert_eq!(dt.month, 5);
    assert_eq!(dt.day, 4);
    assert_eq!(dt.hour, 3);
    assert_eq!(dt.minute, 2);
    assert_eq!(dt.second, 1);
}

#[test]
fn ranges_are_not_imposed() {
    assert_eq!(
        DateTime::from_ascii(b"9999:13:32 24:60:99"),
        Ok(DateTime { year: 9999, month: 13, day: 32, hour: 24, minute: 60, second: 99 })
    );
    assert_eq!(
        DateTime::from_ascii(b"0000:00:00 00:00:00"),
        Ok(DateTime { year: 0, month: 0, day: 0, hour: 0, minute: 0, second: 0 })
    );
}

#[test]
fn bytes_after_the_time_are_ignored() {
    assert_eq!(
        DateTime::from_ascii(b"2016:05:04 03:02:01\0"),
        Ok(DateTime { year: 2016, month: 5, day: 4, hour: 3, minute: 2, second: 1 })
    );
    assert_eq!(
        DateTime::from_ascii(b"1999:12:31 23:59:59.5+09:00"),
        Ok(DateTime { year: 1999, month: 12, day: 31, hour: 23, minute: 59, second: 59 })
    );
}

#[test]
fn blank_fields_are_told_apart() {
    assert_eq!(
        DateTime::from_ascii(b"    :  :     :  :  "),
        Err(Error::BlankValue("DateTime is blank"))
    );
    assert_eq!(
        DateTime::from_ascii(b"                   "),
        Err(Error::BlankValue("DateTime is blank"))
    );
    // Blank, but not one of the two blank fields.
    assert_eq!(
        DateTime::from_ascii(b"    :  :     :  :  \0"),
        Err(Error::InvalidFormat("Not a number"))
    );
    assert_eq!(
        DateTime::from_ascii(b"                    "),
        Err(Error::InvalidFormat("Invalid DateTime delimiter"))
    );
    assert_eq!(
        DateTime::from_ascii(b"    :  :        :  "),
        Err(Error::InvalidFormat("Invalid DateTime delimiter"))
    );
    assert_eq!(
        DateTime::from_ascii(b"                  "),
        Err(Error::InvalidFormat("DateTime too short"))
    );
}

#[test]
fn short_fields_are_refused() {
    assert_eq!(
        DateTime::from_ascii(b"2016:05:04 03:02:0"),
        Err(Error::InvalidFormat("DateTime too short"))
    );
    assert_eq!(DateTime::from_ascii(b""), Err(Error::InvalidFormat("DateTime too short")));
}

#[test]
fn delimiters_are_required() {
    for at in [4usize, 7, 10, 13, 16] {
        let mut data = *b"2016:05:04 03:02:01";
        data[at] = b'-';
        assert_eq!(
            DateTime::from_ascii(&data),
            Err(Error::InvalidFormat("Invalid DateTime delimiter"))
        );
    }
}

#[test]
fn numbers_are_digits_only() {
    for at in [0usize, 3, 5, 6, 8, 9, 11, 12, 14, 15, 17, 18] {
        let mut data = *b"2016:05:04 03:02:01";
        data[at] = b' ';
        assert_eq!(
            DateTime::from_ascii(&data),
            Err(Error::InvalidFormat("Not a number"))
        );
        data[at] = b':';
        assert_eq!(
            DateTime::from_ascii(&data),
            Err(Error::InvalidFormat("Not a number"))
        );
        data[at] = b'/';
        assert_eq!(
            DateTime::from_ascii(&data),
            Err(Error::InvalidFormat("Not a number"))
        );
    }
}

#[test]
fn decimal_numbers_of_up_to_four_digits() {
    assert_eq!(atou16(b"0"), Ok(0));
    assert_eq!(atou16(b"7"), Ok(7));
    assert_eq!(atou16(b"42"), Ok(42));
    assert_eq!(atou16(b"0012"), Ok(12));
    assert_eq!(atou16(b"1234"), Ok(1234));
    assert_eq!(atou16(b"9999"), Ok(9999));
    assert_eq!(atou16(b""), Err(Error::InvalidFormat("Not a number")));
    assert_eq!(atou16(b"12a4"), Err(Error::InvalidFormat("Not a number")));
    assert_eq!(atou16(b"-1"), Err(Error::InvalidFormat("Not a number")));
    assert_eq!(atou16(b" 1"), Err(Error::InvalidFormat("Not a number")));
    assert_eq!(atou16(b"1:"), Err(Error::InvalidFormat("Not a number")));
}

#[test]
fn date_and_time_are_written() {
    let dt = DateTime::from_ascii(b"2016:05:04 03:02:01").unwrap();
    assert_eq!(dt.to_string(), "2016-05-04 03:02:01");
    let dt = DateTime { year: 0, month: 0, day: 0, hour: 0, minute: 0, second: 0 };
    assert_eq!(dt.to_string(), "0000-00-00 00:00:00");
    let dt = DateTime { year: 7, month: 12, day: 9, hour: 10, minute: 59, second: 5 };
    assert_eq!(dt.to_string(), "0007-12-09 10:59:05");
    let dt = DateTime { year: 999, month: 99, day: 10, hour: 1, minute: 0, second: 90 };
    assert_eq!(dt.to_string(), "0999-99-10 01:00:90");
}

#[test]
fn numbers_too_long_for_their_places_are_written_in_full() {
    let dt = DateTime { year: 65535, month: 255, day: 100, hour: 101, minute: 199, second: 200 };
    assert_eq!(dt.to_string(), "65535-255-100 101:199:200");
    let dt = DateTime { year: 10000, month: 13, day: 32, hour: 24, minute: 60, second: 61 };
    assert_eq!(dt.to_string(), "10000-13-32 24:60:61");
}

#[test]
fn written_text_is_that_of_the_standard_formatter() {
    let years = [0u16, 1, 9, 10, 99, 100, 999, 1000, 2016, 9999, 10000, 12345, 65535];
    let others = [0u8, 1, 9, 10, 11, 59, 99, 100, 109, 200, 255];
    for (i, &year) in years.iter().enumerate() {
        for (j, &n) in others.iter().enumerate() {
            let m = others[(i + j) % others.len()];
            let dt = DateTime { year, month: n, day: m, hour: n, minute: m, second: n };
            assert_eq!(
                dt.to_string(),
                format!("{:04}-{:02}-{:02} {:02}:{:02}:{:02}", year, n, m, n, m, n)
            );
        }
    }
}
