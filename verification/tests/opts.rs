use mcinfo::opts::Opts;

#[test]
fn options_hold_what_was_chosen() {
    let o = Opts { host: "localhost".to_string(), port: 11211, timeout: 1, short: true };
    assert_eq!(o.host, "localhost");
    assert_eq!(o.port, 11211);
    assert_eq!(o.timeout, 1);
    assert!(o.short);
}

#[test]
fn results_default_to_the_library_error() {
    let ok: mcinfo::Result<u8> = Ok(1);
    assert!(ok.is_ok());
    let bad: mcinfo::Result<u8> = Err(mcinfo::error::MCError::Parse);
    assert!(bad.is_err());
}
