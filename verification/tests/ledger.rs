use cert_machine::ledger::{char_is_whitespace, get_sn, LedgerError, SerialLedger};

#[test]
fn fresh_ledger_stands_at_zero() {
    assert_eq!(SerialLedger::bootstrap().value, 0);
    assert_eq!(SerialLedger::bootstrap().render(), "0");
}

#[test]
fn first_serial_is_one() {
    let mut ledger = SerialLedger::bootstrap();
    assert_eq!(ledger.next_serial(), Ok(1));
    assert_eq!(ledger.value, 1);
}

#[test]
fn serials_run_without_gap_or_repeat() {
    let mut ledger = SerialLedger::bootstrap();
    let mut drawn = Vec::new();
    for _ in 0..50 {
        drawn.push(ledger.next_serial().unwrap());
    }
    let expected: Vec<u32> = (1..=50).collect();
    assert_eq!(drawn, expected);
    assert_eq!(ledger.value, 50);
}

#[test]
fn serials_go_on_from_the_high_water_mark() {
    let mut ledger = SerialLedger { value: 41 };
    assert_eq!(ledger.next_serial(), Ok(42));
    assert_eq!(ledger.next_serial(), Ok(43));
    assert_eq!(ledger.next_serial(), Ok(44));
}

#[test]
fn serials_go_on_across_a_restart() {
    let mut ledger = SerialLedger::bootstrap();
    let mut drawn = Vec::new();
    for round in 0..20 {
        drawn.push(ledger.next_serial().unwrap());
        if round % 3 == 0 {
            let contents = ledger.render();
            ledger = SerialLedger::parse(&contents).unwrap();
        }
    }
    let expected: Vec<u32> = (1..=20).collect();
    assert_eq!(drawn, expected);
}

#[test]
fn exhausted_ledger_stays() {
    let mut ledger = SerialLedger { value: u32::MAX - 1 };
    assert_eq!(ledger.next_serial(), Ok(u32::MAX));
    assert_eq!(ledger.next_serial(), Err(LedgerError::Exhausted));
    assert_eq!(ledger.value, u32::MAX);
    assert_eq!(ledger.next_serial(), Err(LedgerError::Exhausted));
}

#[test]
fn parse_reads_a_numeral() {
    assert_eq!(SerialLedger::parse("0"), Ok(SerialLedger { value: 0 }));
    assert_eq!(SerialLedger::parse("17"), Ok(SerialLedger { value: 17 }));
    assert_eq!(SerialLedger::parse("4294967295"), Ok(SerialLedger { value: u32::MAX }));
}

#[test]
fn parse_ignores_white_space_around_the_numeral() {
    assert_eq!(SerialLedger::parse("17\n"), Ok(SerialLedger { value: 17 }));
    assert_eq!(SerialLedger::parse("  17\t\r\n"), Ok(SerialLedger { value: 17 }));
    assert_eq!(SerialLedger::parse("\u{a0}17\u{2003}\u{3000}"), Ok(SerialLedger { value: 17 }));
}

#[test]
fn parse_refuses_a_damaged_ledger() {
    assert_eq!(SerialLedger::parse(""), Err(LedgerError::Corrupt));
    assert_eq!(SerialLedger::parse("   "), Err(LedgerError::Corrupt));
    assert_eq!(SerialLedger::parse("abc"), Err(LedgerError::Corrupt));
    assert_eq!(SerialLedger::parse("-1"), Err(LedgerError::Corrupt));
    assert_eq!(SerialLedger::parse("1 2"), Err(LedgerError::Corrupt));
    assert_eq!(SerialLedger::parse("12x"), Err(LedgerError::Corrupt));
    assert_eq!(SerialLedger::parse("4294967296"), Err(LedgerError::Corrupt));
    assert_eq!(SerialLedger::parse("1.0"), Err(LedgerError::Corrupt));
}

#[test]
fn parse_agrees_with_std_on_samples() {
    let samples = ["", " ", "5", " 5 ", "\n5\n", "+5", "5\u{85}", "\u{200b}5", "5\u{feff}", "٥", "0005"];
    for s in samples.iter() {
        let expected = s.trim().parse::<u32>().ok();
        assert_eq!(SerialLedger::parse(s).ok().map(|l| l.value), expected, "{:?}", s);
    }
}

#[test]
fn white_space_agrees_with_std() {
    let mut c = 0u32;
    while c <= 0x3100 {
        if let Some(ch) = char::from_u32(c) {
            assert_eq!(char_is_whitespace(ch), ch.is_whitespace(), "U+{:04X}", c);
        }
        c += 1;
    }
    assert!(!char_is_whitespace('\u{feff}'));
    assert!(!char_is_whitespace('\u{10ffff}'));
}

#[test]
fn render_is_the_decimal_numeral() {
    assert_eq!(SerialLedger { value: 7 }.render(), "7");
    assert_eq!(SerialLedger { value: 1234567 }.render(), "1234567");
    assert_eq!(SerialLedger { value: u32::MAX }.render(), "4294967295");
}

#[test]
fn get_sn_creates_a_missing_ledger() {
    let read = get_sn(None).unwrap();
    assert_eq!(read.ledger.value, 0);
    assert_eq!(read.create, Some(String::from("0")));
}

#[test]
fn get_sn_reads_an_existing_ledger() {
    let read = get_sn(Some("12\n")).unwrap();
    assert_eq!(read.ledger.value, 12);
    assert_eq!(read.create, None);
}

#[test]
fn get_sn_refuses_a_damaged_ledger() {
    assert_eq!(get_sn(Some("twelve")), Err(LedgerError::Corrupt));
    assert_eq!(get_sn(Some("")), Err(LedgerError::Corrupt));
}
