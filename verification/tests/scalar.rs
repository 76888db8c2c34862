use property_codec::scalar::{
    conversion_error, format_bool, format_bool_as_int, parse, parse_bool, TextConvertible,
};

fn message(input: &str, target: &str) -> String {
    format!("Can't convert '{}' to '{}'.", input, target)
}

#[test]
fn parse_bool_accepts_the_four_literals() {
    assert_eq!(parse_bool("1"), Ok(true));
    assert_eq!(parse_bool("true"), Ok(true));
    assert_eq!(parse_bool("0"), Ok(false));
    assert_eq!(parse_bool("false"), Ok(false));
}

#[test]
fn parse_bool_rejects_everything_else() {
    for s in ["True", "TRUE", "yes", "2", "", "no", "False", " true", "true ", "01", "10", "tru", "truee"] {
        assert_eq!(parse_bool(s), Err(message(s, "bool")), "input {:?}", s);
    }
}

#[test]
fn parse_bool_error_names_input_and_type() {
    assert_eq!(parse_bool("yes"), Err("Can't convert 'yes' to 'bool'.".to_string()));
    assert_eq!(parse_bool(""), Err("Can't convert '' to 'bool'.".to_string()));
}

#[test]
fn conversion_error_builds_the_message() {
    assert_eq!(conversion_error("x", "u8"), "Can't convert 'x' to 'u8'.");
    assert_eq!(conversion_error("", ""), "Can't convert '' to ''.");
    assert_eq!(conversion_error("a'b", "T"), "Can't convert 'a'b' to 'T'.");
}

#[test]
fn format_bool_writes_words() {
    assert_eq!(format_bool(&true), "true");
    assert_eq!(format_bool(&false), "false");
}

#[test]
fn format_bool_as_int_writes_digits() {
    assert_eq!(format_bool_as_int(&true), "1");
    assert_eq!(format_bool_as_int(&false), "0");
}

#[test]
fn bool_formats_read_back_by_parse_bool() {
    for b in [true, false] {
        assert_eq!(parse_bool(&format_bool(&b)), Ok(b));
        assert_eq!(parse_bool(&format_bool_as_int(&b)), Ok(b));
    }
}

#[test]
fn parse_i32_not_a_number_fails_with_message() {
    let r = parse::<i32>("notanumber");
    assert_eq!(r, Err("Can't convert 'notanumber' to 'i32'.".to_string()));
    let e = r.unwrap_err();
    assert!(e.contains("notanumber"));
    assert!(e.contains("i32"));
}

#[test]
fn parse_integers_of_each_type() {
    assert_eq!(parse::<u8>("255"), Ok(255u8));
    assert_eq!(parse::<u16>("65535"), Ok(65535u16));
    assert_eq!(parse::<u32>("4294967295"), Ok(u32::MAX));
    assert_eq!(parse::<u64>("18446744073709551615"), Ok(u64::MAX));
    assert_eq!(parse::<usize>("12345"), Ok(12345usize));
    assert_eq!(parse::<i8>("-128"), Ok(-128i8));
    assert_eq!(parse::<i16>("-32768"), Ok(i16::MIN));
    assert_eq!(parse::<i32>("-2147483648"), Ok(i32::MIN));
    assert_eq!(parse::<i64>("-9223372036854775808"), Ok(i64::MIN));
    assert_eq!(parse::<i64>("9223372036854775807"), Ok(i64::MAX));
    assert_eq!(parse::<isize>("-7"), Ok(-7isize));
    assert_eq!(parse::<u128>("340282366920938463463374607431768211455"), Ok(u128::MAX));
    assert_eq!(parse::<i128>("-170141183460469231731687303715884105728"), Ok(i128::MIN));
    assert_eq!(parse::<i128>("170141183460469231731687303715884105727"), Ok(i128::MAX));
    assert_eq!(parse::<i32>("42"), Ok(42));
    assert_eq!(parse::<i32>("0"), Ok(0));
}

#[test]
fn parse_integer_out_of_range_fails() {
    assert_eq!(parse::<u8>("256"), Err(message("256", "u8")));
    assert_eq!(parse::<u16>("65536"), Err(message("65536", "u16")));
    assert_eq!(parse::<u32>("4294967296"), Err(message("4294967296", "u32")));
    assert_eq!(parse::<u64>("18446744073709551616"), Err(message("18446744073709551616", "u64")));
    assert_eq!(parse::<i8>("128"), Err(message("128", "i8")));
    assert_eq!(parse::<i8>("-129"), Err(message("-129", "i8")));
    assert_eq!(parse::<i16>("32768"), Err(message("32768", "i16")));
    assert_eq!(parse::<i32>("2147483648"), Err(message("2147483648", "i32")));
    assert_eq!(parse::<i32>("-2147483649"), Err(message("-2147483649", "i32")));
    assert_eq!(parse::<i64>("9223372036854775808"), Err(message("9223372036854775808", "i64")));
    assert_eq!(parse::<i64>("-9223372036854775809"), Err(message("-9223372036854775809", "i64")));
    assert_eq!(
        parse::<u64>("99999999999999999999999999999999999999999999"),
        Err(message("99999999999999999999999999999999999999999999", "u64"))
    );
    assert_eq!(
        parse::<u128>("340282366920938463463374607431768211456"),
        Err(message("340282366920938463463374607431768211456", "u128"))
    );
    assert_eq!(
        parse::<i128>("170141183460469231731687303715884105728"),
        Err(message("170141183460469231731687303715884105728", "i128"))
    );
    assert_eq!(
        parse::<i128>("-170141183460469231731687303715884105729"),
        Err(message("-170141183460469231731687303715884105729", "i128"))
    );
    assert_eq!(parse::<u128>("-0"), Err(message("-0", "u128")));
    assert_eq!(parse::<isize>("x"), Err(message("x", "isize")));
    assert_eq!(parse::<usize>("-1"), Err(message("-1", "usize")));
}

#[test]
fn parse_integer_signs_and_leading_zeros() {
    assert_eq!(parse::<u8>("+7"), Ok(7));
    assert_eq!(parse::<i8>("+7"), Ok(7));
    assert_eq!(parse::<i8>("-0"), Ok(0));
    assert_eq!(parse::<u8>("007"), Ok(7));
    assert_eq!(parse::<u8>("0000000000000000000000000255"), Ok(255));
    assert_eq!(parse::<i8>("-000128"), Ok(-128));
    assert!(parse::<u8>("-0").is_err());
    assert!(parse::<u8>("+").is_err());
    assert!(parse::<i8>("-").is_err());
    assert!(parse::<i8>("").is_err());
    assert!(parse::<i8>("+-1").is_err());
    assert!(parse::<i8>("--1").is_err());
    assert!(parse::<i8>("1-").is_err());
    assert!(parse::<i32>(" 1").is_err());
    assert!(parse::<i32>("1 ").is_err());
    assert!(parse::<i32>("1_000").is_err());
    assert!(parse::<i32>("0x10").is_err());
    assert!(parse::<i32>("1.0").is_err());
    assert!(parse::<i32>("١٢").is_err());
}

fn same_as_std_u8(s: &str) {
    assert_eq!(parse::<u8>(s).ok(), s.parse::<u8>().ok(), "u8 from {:?}", s);
}

fn same_as_std_i8(s: &str) {
    assert_eq!(parse::<i8>(s).ok(), s.parse::<i8>().ok(), "i8 from {:?}", s);
}

fn same_as_std_u64(s: &str) {
    assert_eq!(parse::<u64>(s).ok(), s.parse::<u64>().ok(), "u64 from {:?}", s);
}

fn same_as_std_i64(s: &str) {
    assert_eq!(parse::<i64>(s).ok(), s.parse::<i64>().ok(), "i64 from {:?}", s);
}

#[test]
fn integer_grammar_is_that_of_the_standard_library() {
    let samples = [
        "", "+", "-", "0", "-0", "+0", "00", "1", "-1", "+1", "127", "128", "-128", "-129", "255",
        "256", "0255", "+255", "+256", "-255", "1a", "a1", " 1", "1 ", "\t1", "1\n", "1_0", "1,0",
        "1.0", "1e3", "0x1", "−1", "٣", "１", "++1", "+-1", "-+1", "--1", "1+", "1-",
        "9223372036854775807", "9223372036854775808", "-9223372036854775808",
        "-9223372036854775809", "18446744073709551615", "18446744073709551616",
        "018446744073709551615", "184467440737095516150", "100000000000000000000",
        "-100000000000000000000", "00000000000000000000000000000000000000001",
        "340282366920938463463374607431768211455", "340282366920938463463374607431768211456",
        "3402823669209384634633746074317682114550", "170141183460469231731687303715884105727",
        "170141183460469231731687303715884105728", "-170141183460469231731687303715884105728",
        "-170141183460469231731687303715884105729", "+340282366920938463463374607431768211455",
        "999999999999999999999999999999999999999", "-999999999999999999999999999999999999999",
    ];
    for s in samples {
        same_as_std_u8(s);
        same_as_std_i8(s);
        same_as_std_u64(s);
        same_as_std_i64(s);
        assert_eq!(parse::<u16>(s).ok(), s.parse::<u16>().ok(), "u16 from {:?}", s);
        assert_eq!(parse::<i16>(s).ok(), s.parse::<i16>().ok(), "i16 from {:?}", s);
        assert_eq!(parse::<u32>(s).ok(), s.parse::<u32>().ok(), "u32 from {:?}", s);
        assert_eq!(parse::<i32>(s).ok(), s.parse::<i32>().ok(), "i32 from {:?}", s);
        assert_eq!(parse::<usize>(s).ok(), s.parse::<usize>().ok(), "usize from {:?}", s);
        assert_eq!(parse::<isize>(s).ok(), s.parse::<isize>().ok(), "isize from {:?}", s);
        assert_eq!(parse::<u128>(s).ok(), s.parse::<u128>().ok(), "u128 from {:?}", s);
        assert_eq!(parse::<i128>(s).ok(), s.parse::<i128>().ok(), "i128 from {:?}", s);
    }
}

#[test]
fn every_small_integer_agrees_with_the_standard_library() {
    for n in -300i32..=300 {
        let s = n.to_string();
        same_as_std_u8(&s);
        same_as_std_i8(&s);
        let plus = format!("+{}", n);
        same_as_std_u8(&plus);
        same_as_std_i8(&plus);
        let padded = format!("0{}", n);
        same_as_std_u8(&padded);
        same_as_std_i8(&padded);
    }
}

#[test]
fn format_integers_of_each_type() {
    assert_eq!(property_codec::scalar::format(&0u8), "0");
    assert_eq!(property_codec::scalar::format(&255u8), "255");
    assert_eq!(property_codec::scalar::format(&65535u16), "65535");
    assert_eq!(property_codec::scalar::format(&u32::MAX), "4294967295");
    assert_eq!(property_codec::scalar::format(&u64::MAX), "18446744073709551615");
    assert_eq!(property_codec::scalar::format(&10usize), "10");
    assert_eq!(property_codec::scalar::format(&i8::MIN), "-128");
    assert_eq!(property_codec::scalar::format(&i16::MIN), "-32768");
    assert_eq!(property_codec::scalar::format(&i32::MIN), "-2147483648");
    assert_eq!(property_codec::scalar::format(&i64::MIN), "-9223372036854775808");
    assert_eq!(property_codec::scalar::format(&i64::MAX), "9223372036854775807");
    assert_eq!(property_codec::scalar::format(&-1isize), "-1");
    assert_eq!(property_codec::scalar::format(&100i32), "100");
    assert_eq!(property_codec::scalar::format(&-100i32), "-100");
    assert_eq!(property_codec::scalar::format(&1000000007i64), "1000000007");
    assert_eq!(
        property_codec::scalar::format(&u128::MAX),
        "340282366920938463463374607431768211455"
    );
    assert_eq!(
        property_codec::scalar::format(&i128::MIN),
        "-170141183460469231731687303715884105728"
    );
    assert_eq!(
        property_codec::scalar::format(&i128::MAX),
        "170141183460469231731687303715884105727"
    );
}

#[test]
fn format_agrees_with_the_standard_library() {
    for n in i16::MIN..=i16::MAX {
        assert_eq!(property_codec::scalar::format(&n), n.to_string());
    }
    for n in [0u64, 9, 10, 11, 99, 100, 101, u64::MAX - 1, u64::MAX, 1 << 63, (1 << 63) - 1] {
        assert_eq!(property_codec::scalar::format(&n), n.to_string());
    }
    for n in [i64::MIN, i64::MIN + 1, -10, -9, -1, 0, 1, 9, 10, i64::MAX - 1, i64::MAX] {
        assert_eq!(property_codec::scalar::format(&n), n.to_string());
    }
}

#[test]
fn non_negative_integers_read_back() {
    for n in 0u8..=u8::MAX {
        assert_eq!(parse::<u8>(&property_codec::scalar::format(&n)), Ok(n));
    }
    for n in 0i8..=i8::MAX {
        assert_eq!(parse::<i8>(&property_codec::scalar::format(&n)), Ok(n));
    }
    for n in 0u16..=u16::MAX {
        assert_eq!(parse::<u16>(&property_codec::scalar::format(&n)), Ok(n));
    }
    for n in [0u32, 1, 10, 4294967295] {
        assert_eq!(parse::<u32>(&property_codec::scalar::format(&n)), Ok(n));
    }
    for n in [0i32, 1, 10, 2147483647] {
        assert_eq!(parse::<i32>(&property_codec::scalar::format(&n)), Ok(n));
    }
    for n in [0u64, 1, 10, u64::MAX] {
        assert_eq!(parse::<u64>(&property_codec::scalar::format(&n)), Ok(n));
    }
    for n in [0i64, 1, 10, i64::MAX] {
        assert_eq!(parse::<i64>(&property_codec::scalar::format(&n)), Ok(n));
    }
    for n in [0usize, 1, 10, usize::MAX] {
        assert_eq!(parse::<usize>(&property_codec::scalar::format(&n)), Ok(n));
    }
    for n in [0isize, 1, 10, isize::MAX] {
        assert_eq!(parse::<isize>(&property_codec::scalar::format(&n)), Ok(n));
    }
    for n in [0u128, 1, 10, u128::MAX] {
        assert_eq!(parse::<u128>(&property_codec::scalar::format(&n)), Ok(n));
    }
    for n in [0i128, 1, 10, i128::MAX] {
        assert_eq!(parse::<i128>(&property_codec::scalar::format(&n)), Ok(n));
    }
}

#[test]
fn negative_integers_read_back() {
    for n in i8::MIN..0 {
        assert_eq!(parse::<i8>(&property_codec::scalar::format(&n)), Ok(n));
    }
    for n in i16::MIN..0 {
        assert_eq!(parse::<i16>(&property_codec::scalar::format(&n)), Ok(n));
    }
    for n in [i32::MIN, -1] {
        assert_eq!(parse::<i32>(&property_codec::scalar::format(&n)), Ok(n));
    }
    for n in [i64::MIN, -1] {
        assert_eq!(parse::<i64>(&property_codec::scalar::format(&n)), Ok(n));
    }
    for n in [isize::MIN, -1] {
        assert_eq!(parse::<isize>(&property_codec::scalar::format(&n)), Ok(n));
    }
    for n in [i128::MIN, i128::MIN + 1, -1] {
        assert_eq!(parse::<i128>(&property_codec::scalar::format(&n)), Ok(n));
    }
}

#[test]
fn canonical_integer_texts_are_kept() {
    for s in ["0", "7", "10", "255"] {
        let v = parse::<u8>(s).unwrap();
        assert_eq!(property_codec::scalar::format(&v), s);
    }
    for s in ["-128", "-1", "0", "127"] {
        let v = parse::<i8>(s).unwrap();
        assert_eq!(property_codec::scalar::format(&v), s);
    }
    let v = parse::<u8>("+007").unwrap();
    assert_eq!(property_codec::scalar::format(&v), "7");
}

#[test]
fn strings_are_their_own_text() {
    assert_eq!(parse::<String>("hello"), Ok("hello".to_string()));
    assert_eq!(parse::<String>(""), Ok(String::new()));
    assert_eq!(parse::<String>("a,b\\c"), Ok("a,b\\c".to_string()));
    assert_eq!(parse::<String>("héllo ✓"), Ok("héllo ✓".to_string()));
    assert_eq!(property_codec::scalar::format(&"hello".to_string()), "hello");
    assert_eq!(property_codec::scalar::format(&String::new()), "");
}

#[test]
fn generic_bool_reads_words_only() {
    assert_eq!(parse::<bool>("true"), Ok(true));
    assert_eq!(parse::<bool>("false"), Ok(false));
    assert_eq!(parse::<bool>("1"), Err(message("1", "bool")));
    assert_eq!(parse::<bool>("0"), Err(message("0", "bool")));
    assert_eq!(parse::<bool>("True"), Err(message("True", "bool")));
    assert_eq!(parse::<bool>(""), Err(message("", "bool")));
    assert_eq!(property_codec::scalar::format(&true), "true");
    assert_eq!(property_codec::scalar::format(&false), "false");
}

#[test]
fn labels_name_the_types() {
    assert_eq!(<u8 as TextConvertible>::label(), "u8");
    assert_eq!(<u16 as TextConvertible>::label(), "u16");
    assert_eq!(<u32 as TextConvertible>::label(), "u32");
    assert_eq!(<u64 as TextConvertible>::label(), "u64");
    assert_eq!(<usize as TextConvertible>::label(), "usize");
    assert_eq!(<i8 as TextConvertible>::label(), "i8");
    assert_eq!(<i16 as TextConvertible>::label(), "i16");
    assert_eq!(<i32 as TextConvertible>::label(), "i32");
    assert_eq!(<i64 as TextConvertible>::label(), "i64");
    assert_eq!(<isize as TextConvertible>::label(), "isize");
    assert_eq!(<u128 as TextConvertible>::label(), "u128");
    assert_eq!(<i128 as TextConvertible>::label(), "i128");
    assert_eq!(<bool as TextConvertible>::label(), "bool");
    assert_eq!(<String as TextConvertible>::label(), "String");
}

#[test]
fn trait_methods_read_and_write() {
    assert_eq!(<u8 as TextConvertible>::from_text("12"), Some(12));
    assert_eq!(<u8 as TextConvertible>::from_text("1x"), None);
    assert_eq!(12u8.to_text(), "12");
    assert_eq!(<String as TextConvertible>::from_text("x"), Some("x".to_string()));
    assert_eq!(true.to_text(), "true");
}
