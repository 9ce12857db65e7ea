use millisecond::{Millisecond, MillisecondPart};

#[test]
fn should_split_from_millis_basic() {
    let ms = Millisecond::from_millis(10_123);
    assert_eq!(
        ms,
        Millisecond {
            parts: vec![MillisecondPart::Seconds(10), MillisecondPart::Millis(123)]
        }
    );
}
#[test]
fn should_split_from_millis() {
    let cases = [
        (0, Millisecond { parts: vec![] }),
        (
            1,
            Millisecond {
                parts: vec![MillisecondPart::Millis(1)],
            },
        ),
        (
            999,
            Millisecond {
                parts: vec![MillisecondPart::Millis(999)],
            },
        ),
        (
            1000,
            Millisecond {
                parts: vec![MillisecondPart::Seconds(1)],
            },
        ),
        (
            1000 + 400,
            Millisecond {
                parts: vec![MillisecondPart::Seconds(1), MillisecondPart::Millis(400)],
            },
        ),
        (
            (1000 * 2) + 400,
            Millisecond {
                parts: vec![MillisecondPart::Seconds(2), MillisecondPart::Millis(400)],
            },
        ),
        (
            1000 * 55,
            Millisecond {
                parts: vec![MillisecondPart::Seconds(55)],
            },
        ),
        (
            1000 * 67,
            Millisecond {
                parts: vec![MillisecondPart::Minutes(1), MillisecondPart::Seconds(7)],
            },
        ),
        (
            1000 * 60 * 5,
            Millisecond {
                parts: vec![MillisecondPart::Minutes(5)],
            },
        ),
        (
            1000 * 60 * 67,
            Millisecond {
                parts: vec![MillisecondPart::Hours(1), MillisecondPart::Minutes(7)],
            },
        ),
        (
            1000 * 60 * 60 * 12,
            Millisecond {
                parts: vec![MillisecondPart::Hours(12)],
            },
        ),
        (
            1000 * 60 * 60 * 40,
            Millisecond {
                parts: vec![MillisecondPart::Days(1), MillisecondPart::Hours(16)],
            },
        ),
        (
            1000 * 60 * 60 * 999,
            Millisecond {
                parts: vec![MillisecondPart::Days(41), MillisecondPart::Hours(15)],
            },
        ),
        (
            1000 * 60 * 60 * 24 * 465,
            Millisecond {
                parts: vec![MillisecondPart::Years(1), MillisecondPart::Days(100)],
            },
        ),
        (
            1000 * 60 * 67 * 24 * 465,
            Millisecond {
                parts: vec![
                    MillisecondPart::Years(1),
                    MillisecondPart::Days(154),
                    MillisecondPart::Hours(6),
                ],
            },
        ),
        (
            119_999,
            Millisecond {
                parts: vec![
                    MillisecondPart::Minutes(1),
                    MillisecondPart::Seconds(59),
                    MillisecondPart::Millis(999),
                ],
            },
        ),
        (
            120_000,
            Millisecond {
                parts: vec![MillisecondPart::Minutes(2)],
            },
        ),
        (
            9007199254740991,
            Millisecond {
                parts: vec![
                    MillisecondPart::Years(285616),
                    MillisecondPart::Days(151),
                    MillisecondPart::Hours(8),
                    MillisecondPart::Minutes(59),
                    MillisecondPart::Millis(991),
                ],
            },
        ), // "285616y 151d 8h 59m 0.9s"
        (
            u64::MAX as u128,
            Millisecond {
                parts: vec![
                    MillisecondPart::Years(584942417),
                    MillisecondPart::Days(129),
                    MillisecondPart::Hours(14),
                    MillisecondPart::Minutes(25),
                    MillisecondPart::Seconds(51),
                    MillisecondPart::Millis(615),
                ],
            },
        ),
        (
            u128::MAX,
            Millisecond {
                parts: vec![
                    MillisecondPart::Years(6549922910721233282),
                    MillisecondPart::Days(361),
                    MillisecondPart::Hours(9),
                    MillisecondPart::Minutes(23),
                    MillisecondPart::Seconds(31),
                    MillisecondPart::Millis(455),
                ],
            },
        ),
    ];
    for (k, v) in cases {
        assert_eq!(Millisecond::from_millis(k), v, "from_millis ({k})");

        if let Some(x) = k.checked_mul(1_000) {
            assert_eq!(Millisecond::from_micros(x), v, "from_micros ({k})");
        }

        if let Some(x) = k.checked_mul(1_000_000) {
            assert_eq!(Millisecond::from_nanos(x), v, "from_nanos ({k})");
        }
    }
}
#[test]
fn should_split_from_micros() {
    let x = Millisecond::from_micros(1);
    assert_eq!(
        x,
        Millisecond {
            parts: vec![MillisecondPart::Micros(1)]
        }
    );
    let x = Millisecond::from_micros(1_800);
    assert_eq!(
        x,
        Millisecond {
            parts: vec![MillisecondPart::Millis(1), MillisecondPart::Micros(800)],
        }
    );
}
#[test]
fn should_split_from_nanos() {
    let x = Millisecond::from_nanos(1);
    assert_eq!(
        x,
        Millisecond {
            parts: vec![MillisecondPart::Nanos(1)]
        }
    );
    let x = Millisecond::from_nanos(1_800);
    assert_eq!(
        x,
        Millisecond {
            parts: vec![MillisecondPart::Micros(1), MillisecondPart::Nanos(800)]
        }
    );
}
#[test]
fn should_split_from_secs() {
    let x = Millisecond::from_secs(1);
    assert_eq!(
        x,
        Millisecond {
            parts: vec![MillisecondPart::Seconds(1)]
        }
    );
}
#[test]
fn should_split_from_minutes() {
    let x = Millisecond::from_minutes(1);
    assert_eq!(
        x,
        Millisecond {
            parts: vec![MillisecondPart::Minutes(1)]
        }
    );
    let x = Millisecond::from_minutes(61);
    assert_eq!(
        x,
        Millisecond {
            parts: vec![MillisecondPart::Hours(1), MillisecondPart::Minutes(1)]
        }
    );
}
#[test]
fn should_split_from_hours() {
    let x = Millisecond::from_hours(1);
    assert_eq!(
        x,
        Millisecond {
            parts: vec![MillisecondPart::Hours(1)]
        }
    );
    let x = Millisecond::from_hours(25);
    assert_eq!(
        x,
        Millisecond {
            parts: vec![MillisecondPart::Days(1), MillisecondPart::Hours(1)]
        }
    );
}
#[test]
fn should_split_from_days() {
    let x = Millisecond::from_days(1);
    assert_eq!(
        x,
        Millisecond {
            parts: vec![MillisecondPart::Days(1)]
        }
    );
    let x = Millisecond::from_days(366);
    assert_eq!(
        x,
        Millisecond {
            parts: vec![MillisecondPart::Years(1), MillisecondPart::Days(1)]
        }
    );
}
#[test]
fn should_split_from_years() {
    let x = Millisecond::from_years(1);
    assert_eq!(
        x,
        Millisecond {
            parts: vec![MillisecondPart::Years(1)]
        }
    );
}
