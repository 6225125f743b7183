use mcinfo::error::MCError;
use mcinfo::stats::{classify_key, StatKey, Stats};

fn chars(s: &str) -> Vec<char> {
    s.chars().collect()
}

#[test]
fn slab_stats_are_read_back() {
    let stats = Stats::parse("STAT items:1:number 5\r\nSTAT 2:chunk_size 120\r\nEND\r\n").unwrap();
    assert_eq!(stats.get_slab_stat(1, "number"), Some(5));
    assert_eq!(stats.get_slab_stat(2, "chunk_size"), Some(120));
    assert_eq!(stats.get_slab_stat(2, "number"), None);
    assert_eq!(stats.get_slab_stat(3, "number"), None);
    assert!(stats.has_slab(1));
    assert!(stats.has_slab(2));
    assert!(!stats.has_slab(0));
    assert_eq!(stats.slab_stat_or_zero(1, "age"), 0);
    assert_eq!(stats.slab_stat_or_zero(1, "number"), 5);
}

#[test]
fn slab_values_are_normalised() {
    let stats = Stats::parse("STAT 007:age 0042\r\nSTAT +3:age +9\r\n").unwrap();
    assert_eq!(stats.get_slab_stat(7, "age"), Some(42));
    assert_eq!(stats.get_slab_stat(3, "age"), Some(9));
}

#[test]
fn global_stats_keep_their_text() {
    let stats = Stats::parse("STAT version 1.6.0\r\nSTAT pid 0042\r\n").unwrap();
    assert_eq!(stats.get_stat("version"), Some(&"1.6.0".to_string()));
    assert_eq!(stats.get_stat("pid"), Some(&"0042".to_string()));
    assert_eq!(stats.get_stat("uptime"), None);
}

#[test]
fn other_lines_are_ignored() {
    let stats = Stats::parse("END\r\nSTAT a\r\nSTAT a b c\r\nstat a b\r\nFOO a:b:c:d e\r\n\r\n").unwrap();
    assert_eq!(stats.get_stat("a"), None);
    for id in 0..=255u8 {
        assert!(!stats.has_slab(id));
    }
    let empty = Stats::parse("").unwrap();
    assert_eq!(empty.get_stat("version"), None);
}

#[test]
fn lines_end_in_crlf_only() {
    // A bare line feed is whitespace inside one line of six words.
    let stats = Stats::parse("STAT a 1\nSTAT b 2\r\nSTAT c 3\r\n").unwrap();
    assert_eq!(stats.get_stat("a"), None);
    assert_eq!(stats.get_stat("b"), None);
    assert_eq!(stats.get_stat("c"), Some(&"3".to_string()));
}

#[test]
fn words_are_split_on_any_whitespace() {
    let stats = Stats::parse("  STAT \t threads   4  \r\n").unwrap();
    assert_eq!(stats.get_stat("threads"), Some(&"4".to_string()));
}

#[test]
fn only_ascii_whitespace_separates_words() {
    let stats = Stats::parse("STAT 1:age\u{a0}5 6\r\nSTAT\u{b}a 1 2\r\n").unwrap();
    assert_eq!(stats.get_slab_stat(1, "age\u{a0}5"), Some(6));
    assert_eq!(stats.get_stat("a"), None);
    let stats = Stats::parse("STAT\u{c}a\t1\r\n").unwrap();
    assert_eq!(stats.get_stat("a"), Some(&"1".to_string()));
}

#[test]
fn key_with_four_fields_fails() {
    assert!(matches!(Stats::parse("STAT a:1:b:c 5\r\n"), Err(MCError::Parse)));
    assert!(matches!(
        Stats::parse("STAT version 1\r\nSTAT items:1:age:x 5\r\nEND\r\n"),
        Err(MCError::Parse)
    ));
}

#[test]
fn key_with_three_fields_needs_items() {
    assert!(matches!(Stats::parse("STAT slabs:1:age 5\r\n"), Err(MCError::Parse)));
}

#[test]
fn bad_numbers_fail() {
    assert!(matches!(Stats::parse("STAT items:x:age 5\r\n"), Err(MCError::Parse)));
    assert!(matches!(Stats::parse("STAT items:256:age 5\r\n"), Err(MCError::Parse)));
    assert!(matches!(Stats::parse("STAT items:-1:age 5\r\n"), Err(MCError::Parse)));
    assert!(matches!(Stats::parse("STAT 1:age five\r\n"), Err(MCError::Parse)));
    assert!(matches!(Stats::parse("STAT 1:age 5.0\r\n"), Err(MCError::Parse)));
    assert!(matches!(Stats::parse("STAT :age 5\r\n"), Err(MCError::Parse)));
    assert!(matches!(
        Stats::parse("STAT 1:age 99999999999999999999999999\r\n"),
        Err(MCError::Parse)
    ));
    assert!(matches!(Stats::parse("STAT items:age 5\r\n"), Err(MCError::Parse)));
}

#[test]
fn largest_numbers_are_read() {
    let line = format!("STAT 255:age {}\r\n", usize::MAX);
    let stats = Stats::parse(&line).unwrap();
    assert_eq!(stats.get_slab_stat(255, "age"), Some(usize::MAX));
    let stats = Stats::parse("STAT 0:age 0\r\n").unwrap();
    assert_eq!(stats.get_slab_stat(0, "age"), Some(0));
}

#[test]
fn first_global_and_last_slab_value_win() {
    let stats = Stats::parse(
        "STAT version 1.6.0\r\nSTAT version 1.7.0\r\nSTAT 1:age 5\r\nSTAT items:1:age 7\r\n",
    )
    .unwrap();
    assert_eq!(stats.get_stat("version"), Some(&"1.6.0".to_string()));
    assert_eq!(stats.get_slab_stat(1, "age"), Some(7));
}

#[test]
fn stats_are_added_by_hand() {
    let mut stats = Stats::new();
    stats.add_stat("a".to_string(), "1".to_string());
    stats.add_stat("a".to_string(), "2".to_string());
    assert_eq!(stats.get_stat("a"), Some(&"1".to_string()));
    assert!(stats.add_stat_slab(4, "n".to_string(), 1).is_ok());
    assert!(stats.add_stat_slab(4, "n".to_string(), 2).is_ok());
    assert_eq!(stats.get_slab_stat(4, "n"), Some(2));
    let fresh = Stats::default();
    assert_eq!(fresh.get_stat("a"), None);
}

#[test]
fn from_str_reads_as_parse_does() {
    let stats: Stats = "STAT 1:age 5\r\n".parse().unwrap();
    assert_eq!(stats.get_slab_stat(1, "age"), Some(5));
    assert!(matches!("STAT a:b:c:d 5".parse::<Stats>(), Err(MCError::Parse)));
}

#[test]
fn keys_are_classified() {
    assert!(matches!(classify_key(&chars("uptime")), Ok(StatKey::Global(n)) if n == "uptime"));
    assert!(
        matches!(classify_key(&chars("3:age")), Ok(StatKey::Slab { slab: 3, name }) if name == "age")
    );
    assert!(matches!(
        classify_key(&chars("items:3:age")),
        Ok(StatKey::SlabItems { slab: 3, name }) if name == "age"
    ));
    assert!(matches!(classify_key(&chars("3:")), Ok(StatKey::Slab { slab: 3, name }) if name.is_empty()));
    assert!(matches!(classify_key(&chars("a:b:c:d")), Err(MCError::Parse)));
    assert!(matches!(classify_key(&chars("")), Ok(StatKey::Global(n)) if n.is_empty()));
}

#[test]
fn errors_have_messages() {
    assert_eq!(MCError::Parse.message(), "Parse error");
    assert_eq!(MCError::Stat("version".to_string()).message(), "Stat error: version");
    let io = MCError::from(std::io::Error::new(std::io::ErrorKind::Other, "down"));
    assert!(matches!(io, MCError::IO(_)));
    assert_eq!(io.message(), "IO error: down");
    let bytes = vec![0xffu8];
    let utf8 = MCError::from(std::str::from_utf8(&bytes).unwrap_err());
    assert!(matches!(utf8, MCError::UTF8(_)));
    assert!(utf8.message().starts_with("UTF8 error: "));
    let int = MCError::from("x".parse::<u8>().unwrap_err());
    assert!(matches!(int, MCError::Parse));
}

#[test]
fn entries_are_kept_in_order_of_arrival() {
    let stats = Stats::parse("STAT b 1\r\nSTAT a 2\r\nSTAT b 3\r\nSTAT 2:n 1\r\nSTAT 1:n 2\r\nSTAT 2:n 3\r\n").unwrap();
    let names: Vec<&str> = stats.stats.iter().map(|e| e.name.as_str()).collect();
    assert_eq!(names, vec!["b", "a"]);
    assert_eq!(stats.stats[0].value, "1");
    let slabs: Vec<(u8, &str, usize)> =
        stats.slabs.iter().map(|e| (e.slab, e.name.as_str(), e.value)).collect();
    assert_eq!(slabs, vec![(2, "n", 1), (1, "n", 2), (2, "n", 3)]);
    assert_eq!(stats.get_slab_stat(2, "n"), Some(3));
}
