use mcinfo::{human_size, human_time};

#[test]
fn simple_bytes_test() {
    let bytes = [
        0,
        12,
        1024,
        1296,
        8192,
        1024 * 1024,
        1024 * 1024 * 1024,
        1024 * 1024 * 1024 + 1024 * 1024 * 512,
    ]
    .to_vec();

    let hbytes = ["0b", "12b", "1.0k", "1.3k", "8.0k", "1.0m", "1.0g", "1.5g"].to_vec();

    for (i, b) in bytes.iter().enumerate() {
        assert_eq!(hbytes[i].to_string(), human_size(true, b));
    }
}

#[test]
fn simple_time_test() {
    let times = [
        0, 15, 60, 65, 119, 120, 3590, 3600, 3660, 86390, 86400, 100000,
    ]
    .to_vec();

    let htimes = [
        "0s",
        "15s",
        "1m",
        "1m5s",
        "1m59s",
        "2m",
        "59m50s",
        "1h",
        "1h1m",
        "23h59m50s",
        "1d",
        "1d3h46m40s",
    ]
    .to_vec();

    for (i, t) in times.iter().enumerate() {
        assert_eq!(htimes[i].to_string(), human_time(true, t));
    }
}

#[test]
fn plain_mode_writes_the_numeral() {
    assert_eq!(human_size(false, &1024), "1024");
    assert_eq!(human_time(false, &65), "65");
    assert_eq!(human_size(false, &0), "0");
}

#[test]
fn size_ties_round_to_even() {
    assert_eq!(human_size(true, &1280), "1.2k");
    assert_eq!(human_size(true, &1024), "1.0k");
    assert_eq!(human_size(true, &1023), "1023b");
    assert_eq!(human_size(true, &(1024 * 1024 - 1)), "1024.0k");
    assert_eq!(human_size(true, &(3 * 1024 * 1024 * 1024)), "3.0g");
}

#[test]
fn durations_drop_zero_components() {
    assert_eq!(human_time(true, &86460), "1d1m");
    assert_eq!(human_time(true, &90061), "1d1h1m1s");
    assert_eq!(human_time(true, &1), "1s");
    assert_eq!(human_time(true, &172800), "2d");
    assert_eq!(human_time(false, &0), "0");
}
