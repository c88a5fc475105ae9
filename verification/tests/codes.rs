use timeframe::{Sampler, Timeframe};

#[test]
fn every_code_names_its_timeframe() {
    let table = [
        ("M1", Timeframe::M1),
        ("M2", Timeframe::M2),
        ("M3", Timeframe::M3),
        ("M4", Timeframe::M4),
        ("M5", Timeframe::M5),
        ("M6", Timeframe::M6),
        ("M10", Timeframe::M10),
        ("M12", Timeframe::M12),
        ("M15", Timeframe::M15),
        ("M20", Timeframe::M20),
        ("M30", Timeframe::M30),
        ("H1", Timeframe::H1),
        ("H2", Timeframe::H2),
        ("H3", Timeframe::H3),
        ("H4", Timeframe::H4),
        ("H6", Timeframe::H6),
        ("H8", Timeframe::H8),
        ("H12", Timeframe::H12),
        ("D1", Timeframe::D1),
        ("W1", Timeframe::W1),
        ("MN1", Timeframe::Mn1),
    ];
    for (code, tf) in table {
        assert_eq!(Timeframe::from_short(code), Some(tf));
        let sampler: Sampler<i64> = Sampler::from_short(code).unwrap();
        assert_eq!(sampler.timeframe(), tf);
        assert_eq!(sampler.current_incomplete(), None);
    }
}

#[test]
fn unknown_codes_name_nothing() {
    let unknown = [
        "", "M", "1", "M0", "M7", "M8", "M9", "M11", "M13", "M25", "M60", "H5", "H7", "H10",
        "H24", "D2", "W2", "MN", "MN2", "Mn1", "m15", "h4", "d1", "w1", "mn1", " M15", "M15 ",
        "M150", "M1\n", "Y1", "М1", "M１",
    ];
    for code in unknown {
        assert_eq!(Timeframe::from_short(code), None, "{:?}", code);
        assert!(Sampler::<i64>::from_short(code).is_none(), "{:?}", code);
    }
}

#[test]
fn period_lengths() {
    assert_eq!(Timeframe::M1.period_secs(), Some(60));
    assert_eq!(Timeframe::M15.period_secs(), Some(900));
    assert_eq!(Timeframe::M30.period_secs(), Some(1_800));
    assert_eq!(Timeframe::H1.period_secs(), Some(3_600));
    assert_eq!(Timeframe::H12.period_secs(), Some(43_200));
    assert_eq!(Timeframe::D1.period_secs(), Some(86_400));
    assert_eq!(Timeframe::W1.period_secs(), Some(604_800));
    assert_eq!(Timeframe::Mn1.period_secs(), None);
    assert_eq!(Timeframe::W1.anchor(), 345_600);
    assert_eq!(Timeframe::D1.anchor(), 0);
    assert_eq!(Timeframe::M5.anchor(), 0);
}
