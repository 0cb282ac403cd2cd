use precompress::algorithm::{Algorithm, Algorithms};
use precompress::config::{
    configure, lookup, parse_compression, parse_item, validate_quality, ConfigError,
};
use precompress::quality::Quality;
use precompress::text::{parse_i8, same_text, split_list};

fn strings(items: &[&str]) -> Vec<String> {
    items.iter().map(|s| s.to_string()).collect()
}

#[test]
fn split_list_splits_at_every_comma() {
    assert_eq!(split_list(&strings(&["a,b", "c"]), ','), strings(&["a", "b", "c"]));
    assert_eq!(split_list(&strings(&["js,css,html"]), ','), strings(&["js", "css", "html"]));
}

#[test]
fn split_list_keeps_empty_pieces() {
    assert_eq!(split_list(&strings(&[""]), ','), strings(&[""]));
    assert_eq!(split_list(&strings(&["a,"]), ','), strings(&["a", ""]));
    assert_eq!(split_list(&strings(&[","]), ','), strings(&["", ""]));
    assert_eq!(split_list(&strings(&[",a,,b"]), ','), strings(&["", "a", "", "b"]));
    assert_eq!(split_list(&strings(&[]), ','), strings(&[]));
}

#[test]
fn split_list_agrees_with_str_split() {
    for text in ["", "a", ",", "a,b", "a,,b,", "žluť,ouč,k", ",,,", "no commas here"] {
        let expected: Vec<String> = text.split(',').map(|s| s.to_owned()).collect();
        assert_eq!(split_list(&strings(&[text]), ','), expected, "{:?}", text);
    }
}

#[test]
fn parse_i8_reads_the_whole_range() {
    for n in i8::MIN..=i8::MAX {
        assert_eq!(parse_i8(&format!("{}", n)), Some(n));
    }
    assert_eq!(parse_i8("+5"), Some(5));
    assert_eq!(parse_i8("-0"), Some(0));
    assert_eq!(parse_i8("000127"), Some(127));
    assert_eq!(parse_i8("-000128"), Some(-128));
}

#[test]
fn parse_i8_refuses_what_is_no_number_or_does_not_fit() {
    for text in
        ["", "+", "-", "128", "-129", "1000", "99999999999999999999", "1a", "a1", " 1", "1 ", "--1", "+-1", "１"]
    {
        assert_eq!(parse_i8(text), None, "{:?}", text);
    }
}

#[test]
fn parse_i8_agrees_with_the_standard_parser() {
    let texts = [
        "", "0", "7", "-7", "+7", "127", "128", "-128", "-129", "0128", "00", "+", "-", "1_0", "0x10",
        "12", "1.5", "٣", "9", "-09", "+099", "255", "-255", "300",
    ];
    for text in texts {
        assert_eq!(parse_i8(text), text.parse::<i8>().ok(), "{:?}", text);
    }
}

#[test]
fn same_text_compares_character_by_character() {
    assert!(same_text("", ""));
    assert!(same_text("gzip", "gzip"));
    assert!(!same_text("gzip", "gzi"));
    assert!(!same_text("gzip", "gzap"));
    assert!(same_text("žluť", "žluť"));
}

#[test]
fn lookup_knows_short_and_full_names() {
    assert_eq!(lookup("br"), Some(Algorithm::Brotli));
    assert_eq!(lookup("brotli"), Some(Algorithm::Brotli));
    assert_eq!(lookup("de"), Some(Algorithm::Deflate));
    assert_eq!(lookup("deflate"), Some(Algorithm::Deflate));
    assert_eq!(lookup("gz"), Some(Algorithm::Gzip));
    assert_eq!(lookup("gzip"), Some(Algorithm::Gzip));
    assert_eq!(lookup("zst"), Some(Algorithm::Zstd));
    assert_eq!(lookup("zstd"), Some(Algorithm::Zstd));
    assert_eq!(lookup("Brotli"), None);
    assert_eq!(lookup("zs"), None);
    assert_eq!(lookup(""), None);
}

#[test]
fn validate_quality_checks_number_then_range() {
    assert_eq!(validate_quality(Algorithm::Brotli, "11"), Ok(11));
    assert_eq!(validate_quality(Algorithm::Zstd, "-7"), Ok(-7));
    assert_eq!(
        validate_quality(Algorithm::Brotli, "12"),
        Err(ConfigError::QualityOutOfRange(Algorithm::Brotli, 12))
    );
    assert_eq!(
        validate_quality(Algorithm::Gzip, "0"),
        Err(ConfigError::QualityOutOfRange(Algorithm::Gzip, 0))
    );
    assert_eq!(
        validate_quality(Algorithm::Gzip, "fast"),
        Err(ConfigError::InvalidQuality(String::from("fast")))
    );
    assert_eq!(
        validate_quality(Algorithm::Gzip, "200"),
        Err(ConfigError::InvalidQuality(String::from("200")))
    );
}

#[test]
fn absent_option_enables_nothing_and_keeps_defaults() {
    assert_eq!(parse_compression(None), Ok((Algorithms::empty(), Quality::default())));
}

#[test]
fn empty_list_enables_nothing() {
    assert_eq!(parse_compression(Some(vec![])), Ok((Algorithms::empty(), Quality::default())));
}

#[test]
fn names_enable_their_algorithms() {
    let (algorithms, quality) = parse_compression(Some(strings(&["br", "gzip"]))).unwrap();
    assert_eq!(algorithms, Algorithms { brotli: true, deflate: false, gzip: true, zstd: false });
    assert_eq!(quality, Quality::default());
}

#[test]
fn items_may_come_comma_separated_and_with_qualities() {
    let (algorithms, quality) =
        parse_compression(Some(strings(&["br:11,zstd:-7", "de:1", "gz"]))).unwrap();
    assert_eq!(algorithms, Algorithms::all_enabled());
    assert_eq!(quality, Quality { brotli: 11, deflate: 1, gzip: 7, zstd: -7 });
}

#[test]
fn a_later_item_overrides_an_earlier_quality() {
    let (algorithms, quality) = parse_compression(Some(strings(&["gz:3,gz:9,gz"]))).unwrap();
    assert_eq!(algorithms, Algorithms { brotli: false, deflate: false, gzip: true, zstd: false });
    assert_eq!(quality.gzip, 9);
}

#[test]
fn unknown_algorithm_is_refused_with_the_whole_item() {
    assert_eq!(
        parse_compression(Some(strings(&["br,lz4"]))),
        Err(ConfigError::UnknownAlgorithm(String::from("lz4")))
    );
    assert_eq!(
        parse_compression(Some(strings(&["lz4:5"]))),
        Err(ConfigError::UnknownAlgorithm(String::from("lz4:5")))
    );
    assert_eq!(
        parse_compression(Some(strings(&[""]))),
        Err(ConfigError::UnknownAlgorithm(String::new()))
    );
    assert_eq!(
        parse_compression(Some(strings(&["br,"]))),
        Err(ConfigError::UnknownAlgorithm(String::new()))
    );
}

#[test]
fn quality_that_is_no_number_is_refused_before_the_name_is_looked_at() {
    assert_eq!(
        parse_compression(Some(strings(&["br:best"]))),
        Err(ConfigError::InvalidQuality(String::from("best")))
    );
    assert_eq!(
        parse_compression(Some(strings(&["lz4:best"]))),
        Err(ConfigError::InvalidQuality(String::from("best")))
    );
    assert_eq!(
        parse_compression(Some(strings(&["br:"]))),
        Err(ConfigError::InvalidQuality(String::new()))
    );
    assert_eq!(
        parse_compression(Some(strings(&["br:5:6"]))),
        Err(ConfigError::InvalidQuality(String::from("5:6")))
    );
    assert_eq!(
        parse_compression(Some(strings(&["br:300"]))),
        Err(ConfigError::InvalidQuality(String::from("300")))
    );
}

#[test]
fn quality_out_of_range_is_refused_for_each_algorithm() {
    let cases = [
        ("br:12", Algorithm::Brotli, 12i8),
        ("brotli:-1", Algorithm::Brotli, -1),
        ("de:0", Algorithm::Deflate, 0),
        ("deflate:10", Algorithm::Deflate, 10),
        ("gz:0", Algorithm::Gzip, 0),
        ("gzip:10", Algorithm::Gzip, 10),
        ("zst:-8", Algorithm::Zstd, -8),
        ("zstd:23", Algorithm::Zstd, 23),
    ];
    for (text, algorithm, q) in cases {
        assert_eq!(
            parse_compression(Some(strings(&[text]))),
            Err(ConfigError::QualityOutOfRange(algorithm, q)),
            "{}",
            text
        );
    }
}

#[test]
fn the_first_refusal_wins() {
    assert_eq!(
        parse_compression(Some(strings(&["gz:10", "nope"]))),
        Err(ConfigError::QualityOutOfRange(Algorithm::Gzip, 10))
    );
    assert_eq!(
        parse_compression(Some(strings(&["nope,gz:10"]))),
        Err(ConfigError::UnknownAlgorithm(String::from("nope")))
    );
}

#[test]
fn parse_item_applies_one_item() {
    let start = (Algorithms::empty(), Quality::default());
    let (algorithms, quality) = parse_item(start.0, start.1, "zst:3").unwrap();
    assert_eq!(algorithms, Algorithms { brotli: false, deflate: false, gzip: false, zstd: true });
    assert_eq!(quality, Quality { brotli: 10, deflate: 7, gzip: 7, zstd: 3 });
    let (algorithms, quality) = parse_item(algorithms, quality, "de").unwrap();
    assert_eq!(algorithms, Algorithms { brotli: false, deflate: true, gzip: false, zstd: true });
    assert_eq!(quality.zstd, 3);
}

#[test]
fn a_configuration_needs_an_enabled_algorithm() {
    assert_eq!(configure(None), Err(ConfigError::NoAlgorithm));
    assert_eq!(configure(Some(vec![])), Err(ConfigError::NoAlgorithm));
    assert_eq!(
        configure(Some(strings(&["zstd:3"]))),
        Ok((
            Algorithms { brotli: false, deflate: false, gzip: false, zstd: true },
            Quality { brotli: 10, deflate: 7, gzip: 7, zstd: 3 }
        ))
    );
    assert_eq!(
        configure(Some(strings(&["zstd:33"]))),
        Err(ConfigError::QualityOutOfRange(Algorithm::Zstd, 33))
    );
}
