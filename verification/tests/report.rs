use mcinfo::error::MCError;
use mcinfo::report::{generate_report, report_response};
use mcinfo::stats::Stats;

const HEADER: &str = "  # Item_Size    Max_Age  Pages   Count      Used_Mem     To_Store    Efficiency    Set_Usage    Evicted   Evict_Time   OOM\n";

const RESPONSE: &str = "STAT cmd_set 10\r\nSTAT cmd_get 20\r\nSTAT item_size_max 1024\r\nSTAT version 1.6.0\r\nSTAT uptime 65\r\nSTAT curr_connections 2\r\nSTAT max_connections 100\r\nSTAT items:1:chunk_size 96\r\nSTAT items:1:total_pages 1\r\nSTAT items:1:number 5\r\nSTAT items:1:mem_requested 480\r\nEND\r\n";

fn without(key: &str) -> Stats {
    let mut text = String::new();
    for line in RESPONSE.split("\r\n") {
        if !line.starts_with(&format!("STAT {} ", key)) {
            text.push_str(line);
            text.push_str("\r\n");
        }
    }
    Stats::parse(&text).unwrap()
}

#[test]
fn end_to_end_report() {
    let stats = Stats::parse(RESPONSE).unwrap();
    let report = generate_report(&stats, false).unwrap();
    let row = format!(
        "{:>3} {:>9} {:>10} {:>6} {:>7} {:>13} {:>12} {:>11} % {:>10} % {:>10} {:>12} {:>5}\n",
        1, "96", "0", 1, 5, "1024", "480", "46.88", "0.00", 0, "0", 0
    );
    let expected = format!(
        "{}{}\n{}{}{}{}{}{}{}",
        HEADER,
        row,
        "Memcached Version        : 1.6.0 (uptime 1m5s)\n",
        "Current/Max Connections  : 2/100\n",
        "Max Memory Allocation    : 0b (provided by -m)\n",
        "Total Used Memory        : 1.0k (for 480b of stored data)\n",
        "Global Efficiency        : 46.88 % (480b / 1.0k)\n",
        "Global GET hits          : 0.00 %\n",
        "Global GET misses        : 0.00 %\n",
    );
    assert_eq!(report, expected);
    assert!(report.contains(" 1024 "));
    assert!(report.contains(" 480 "));
    assert!(report.contains("46.88 %"));
    assert!(report.contains("(uptime 1m5s)"));
    assert!(report.contains(": 2/100\n"));
}

#[test]
fn short_mode_scales_the_rows() {
    let stats = Stats::parse(RESPONSE).unwrap();
    let report = generate_report(&stats, true).unwrap();
    let row = format!(
        "{:>3} {:>9} {:>10} {:>6} {:>7} {:>13} {:>12} {:>11} % {:>10} % {:>10} {:>12} {:>5}\n",
        1, "96b", "0s", 1, 5, "1.0k", "480b", "46.88", "0.00", 0, "0s", 0
    );
    assert!(report.starts_with(&format!("{}{}\n", HEADER, row)));
}

#[test]
fn missing_version_is_named() {
    let r = generate_report(&without("version"), true);
    assert!(matches!(r, Err(MCError::Stat(name)) if name == "version"));
}

#[test]
fn each_missing_required_stat_is_named() {
    for key in [
        "cmd_set",
        "cmd_get",
        "item_size_max",
        "version",
        "uptime",
        "curr_connections",
        "max_connections",
    ] {
        let r = generate_report(&without(key), false);
        assert!(matches!(r, Err(MCError::Stat(name)) if name == key));
    }
    let r = generate_report(&Stats::new(), false);
    assert!(matches!(r, Err(MCError::Stat(name)) if name == "cmd_set"));
}

#[test]
fn unreadable_numbers_fail_the_report() {
    for key in ["cmd_set", "cmd_get", "item_size_max", "uptime"] {
        let mut stats = Stats::new();
        stats.add_stat(key.to_string(), "many".to_string());
        let rest = Stats::parse(RESPONSE).unwrap();
        for other in [
            "cmd_set",
            "cmd_get",
            "item_size_max",
            "version",
            "uptime",
            "curr_connections",
            "max_connections",
        ] {
            stats.add_stat(other.to_string(), rest.get_stat(other).unwrap().clone());
        }
        assert!(matches!(generate_report(&stats, false), Err(MCError::Parse)));
    }
    for key in ["maxbytes", "get_hits", "get_misses"] {
        let mut stats = Stats::parse(RESPONSE).unwrap();
        stats.add_stat(key.to_string(), "x".to_string());
        assert!(matches!(generate_report(&stats, false), Err(MCError::Parse)));
    }
}

#[test]
fn rows_come_in_ascending_order_with_totals() {
    let text = format!(
        "{}STAT 9:total_pages 2\r\nSTAT 9:mem_requested 1024\r\nSTAT 9:cmd_set 5\r\nSTAT 2:total_pages 1\r\nSTAT maxbytes 67108864\r\nSTAT get_hits 5\r\nSTAT get_misses 15\r\n",
        RESPONSE
    );
    let stats = Stats::parse(&text).unwrap();
    let report = generate_report(&stats, true).unwrap();
    let lines: Vec<&str> = report.split('\n').collect();
    assert_eq!(lines.len(), 13);
    assert!(lines[1].starts_with("  1 "));
    assert!(lines[2].starts_with("  2 "));
    assert!(lines[3].starts_with("  9 "));
    assert_eq!(
        lines[3],
        format!(
            "{:>3} {:>9} {:>10} {:>6} {:>7} {:>13} {:>12} {:>11} % {:>10} % {:>10} {:>12} {:>5}",
            9, "0b", "0s", 2, 0, "2.0k", "1.0k", "50.00", "50.00", 0, "0s", 0
        )
    );
    assert_eq!(lines[4], "");
    assert_eq!(lines[6], "Current/Max Connections  : 2/100");
    assert_eq!(lines[7], "Max Memory Allocation    : 64.0m (provided by -m)");
    assert_eq!(lines[8], "Total Used Memory        : 4.0k (for 1.5k of stored data)");
    assert_eq!(lines[9], "Global Efficiency        : 36.72 % (1.5k / 4.0k)");
    assert_eq!(lines[10], "Global GET hits          : 25.00 %");
    assert_eq!(lines[11], "Global GET misses        : 75.00 %");
    assert_eq!(lines[12], "");
}

#[test]
fn shares_of_nothing_are_not_numbers() {
    let text = "STAT cmd_set 0\r\nSTAT cmd_get 0\r\nSTAT item_size_max 1024\r\nSTAT version 1\r\nSTAT uptime 0\r\nSTAT curr_connections 1\r\nSTAT max_connections 2\r\nSTAT get_hits 3\r\nSTAT 1:mem_requested 7\r\nSTAT 1:cmd_set 0\r\n";
    let stats = Stats::parse(text).unwrap();
    let report = generate_report(&stats, false).unwrap();
    let lines: Vec<&str> = report.split('\n').collect();
    assert_eq!(
        lines[1],
        format!(
            "{:>3} {:>9} {:>10} {:>6} {:>7} {:>13} {:>12} {:>11} % {:>10} % {:>10} {:>12} {:>5}",
            1, "0", "0", 0, 0, "0", "7", "inf", "NaN", 0, "0", 0
        )
    );
    assert_eq!(lines[3], "Memcached Version        : 1 (uptime 0s)");
    assert_eq!(lines[6], "Total Used Memory        : 0b (for 7b of stored data)");
    assert_eq!(lines[7], "Global Efficiency        :  inf % (7b / 0b)");
    assert_eq!(lines[8], "Global GET hits          :  inf %");
    assert_eq!(lines[9], "Global GET misses        :  NaN %");
}

#[test]
fn totals_beyond_the_machine_fail() {
    let text = format!(
        "{}STAT 2:total_pages {}\r\nSTAT 3:total_pages 2\r\n",
        RESPONSE,
        usize::MAX / 1024
    );
    let stats = Stats::parse(&text).unwrap();
    assert!(matches!(generate_report(&stats, false), Err(MCError::Parse)));
    let text = format!(
        "{}STAT 2:mem_requested {}\r\n",
        RESPONSE,
        usize::MAX
    );
    let stats = Stats::parse(&text).unwrap();
    assert!(matches!(generate_report(&stats, false), Err(MCError::Parse)));
}

#[test]
fn report_without_slabs_has_no_rows() {
    let text = "STAT cmd_set 1\r\nSTAT cmd_get 3\r\nSTAT item_size_max 1048576\r\nSTAT version 1.6.21\r\nSTAT uptime 100000\r\nSTAT curr_connections 1\r\nSTAT max_connections 1024\r\nSTAT get_hits 1\r\nSTAT get_misses 2\r\n";
    let report = generate_report(&Stats::parse(text).unwrap(), false).unwrap();
    let expected = format!(
        "{}\n{}{}{}{}{}{}{}",
        HEADER,
        "Memcached Version        : 1.6.21 (uptime 1d3h46m40s)\n",
        "Current/Max Connections  : 1/1024\n",
        "Max Memory Allocation    : 0b (provided by -m)\n",
        "Total Used Memory        : 0b (for 0b of stored data)\n",
        "Global Efficiency        :  NaN % (0b / 0b)\n",
        "Global GET hits          : 33.33 %\n",
        "Global GET misses        : 66.67 %\n",
    );
    assert_eq!(report, expected);
}

#[test]
fn raw_responses_are_decoded_read_and_reported() {
    let report = report_response(RESPONSE.as_bytes(), false).unwrap();
    assert_eq!(report, generate_report(&Stats::parse(RESPONSE).unwrap(), false).unwrap());
    assert!(report.contains("(uptime 1m5s)"));
    let accented = RESPONSE.replace("1.6.0", "1.6.0-\u{e9}");
    let report = report_response(accented.as_bytes(), false).unwrap();
    assert!(report.contains(": 1.6.0-\u{e9} (uptime 1m5s)\n"));
}

#[test]
fn raw_responses_fail_by_kind() {
    assert!(matches!(report_response(&[b'S', 0xff, b'\r', b'\n'], true), Err(MCError::UTF8(_))));
    assert!(matches!(report_response(&[0xc3], true), Err(MCError::UTF8(_))));
    assert!(matches!(report_response(b"STAT a:b:c:d 1\r\n", true), Err(MCError::Parse)));
    assert!(matches!(report_response(b"", true), Err(MCError::Stat(name)) if name == "cmd_set"));
    assert!(matches!(
        report_response(b"STAT cmd_set 1\r\nSTAT cmd_get", true),
        Err(MCError::Stat(name)) if name == "cmd_get"
    ));
}
