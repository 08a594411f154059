use currency_converter::catalog::{CurrencyCatalog, validate_currency_code};
use currency_converter::date::{current_date, Date, parse_date, format_date, timestamp, date_minus_days, month_back, day_number};
use currency_converter::decimal::{Decimal, convert, value_le, value_eq};
use currency_converter::errors::AppError;
use currency_converter::orchestrator::{Action, CliRequest, plan, single_rate_outcome, conversion_outcome};
use currency_converter::projector::{ConversionSeries, PlotPoint, compute_bounds, project, sorted_by_timestamp};
use currency_converter::rates::{lookup_rate, ConversionSnapshot};
use currency_converter::render::{chart_layout, format_decimal, truncated_label};

fn catalog(codes: &[(&str, &str)]) -> CurrencyCatalog {
    CurrencyCatalog {
        entries: codes.iter().map(|(c, n)| (c.to_string(), n.to_string())).collect(),
    }
}

fn sample_catalog() -> CurrencyCatalog {
    catalog(&[("USD", "United States Dollar"), ("EUR", "Euro"), ("PLN", "Polish Zloty")])
}

fn dec(mantissa: i128, scale: u32) -> Decimal {
    Decimal { mantissa, scale }
}

fn request(
    from: Option<&str>,
    to: Option<&str>,
    amount: Option<Decimal>,
    list: bool,
    chart: bool,
) -> CliRequest {
    CliRequest {
        from_currency_code: from.map(|s| s.to_string()),
        to_currency_code: to.map(|s| s.to_string()),
        amount,
        list,
        chart,
        invalidate: false,
    }
}

fn today() -> Date {
    Date { year: 2024, month: 3, day: 15 }
}

#[test]
fn catalog_codes_validate() {
    let cat = sample_catalog();
    assert!(validate_currency_code(&"USD".to_string(), &cat));
    assert!(validate_currency_code(&"EUR".to_string(), &cat));
    assert!(validate_currency_code(&"PLN".to_string(), &cat));
}

#[test]
fn unknown_codes_do_not_validate() {
    let cat = sample_catalog();
    assert!(!validate_currency_code(&"XXX".to_string(), &cat));
    assert!(!validate_currency_code(&"usd".to_string(), &cat));
    assert!(!validate_currency_code(&"".to_string(), &cat));
}

#[test]
fn conversion_is_exact_multiplication() {
    // 10.0 * 0.9 == 9.00 exactly, with no rounding.
    let amount = dec(100, 1);
    let rate = dec(9, 1);
    let exchanged = convert(&amount, &rate);
    assert_eq!(exchanged, dec(900, 2));
    assert!(value_eq(&exchanged, &dec(9, 0)));
}

#[test]
fn conversion_keeps_every_digit() {
    // 1.23 * 4.567 == 5.61741 exactly.
    let exchanged = convert(&dec(123, 2), &dec(4567, 3));
    assert_eq!(exchanged, dec(561741, 5));
}

#[test]
fn decimal_order_is_by_value() {
    assert!(value_le(&dec(9, 1), &dec(9, 0)));
    assert!(!value_le(&dec(9, 0), &dec(9, 1)));
    assert!(value_le(&dec(900, 2), &dec(9, 0)));
    assert!(value_le(&dec(9, 0), &dec(900, 2)));
    assert!(value_le(&dec(-5, 0), &dec(1, 2)));
}

#[test]
fn lookup_finds_present_rate() {
    let rates = vec![("EUR".to_string(), dec(9, 1)), ("PLN".to_string(), dec(4, 0))];
    assert_eq!(lookup_rate(&rates, &"PLN".to_string()).unwrap(), dec(4, 0));
    assert_eq!(lookup_rate(&rates, &"EUR".to_string()).unwrap(), dec(9, 1));
}

#[test]
fn lookup_reports_missing_rate() {
    let rates = vec![("EUR".to_string(), dec(9, 1))];
    let r = lookup_rate(&rates, &"JPY".to_string());
    assert!(matches!(r, Err(AppError::MissingRateError)));
}

fn snapshot(rates: Vec<(String, Decimal)>) -> ConversionSnapshot {
    ConversionSnapshot {
        amount: dec(1, 0),
        base: "USD".to_string(),
        date: b"2024-03-15".to_vec(),
        rates,
    }
}

#[test]
fn single_rate_agrees_with_snapshot_lookup() {
    // The convenience rate equals the latest snapshot's entry for the target.
    let snap = snapshot(vec![("EUR".to_string(), dec(9, 1)), ("PLN".to_string(), dec(4, 0))]);
    let direct = lookup_rate(&snap.rates, &"EUR".to_string()).unwrap();
    let convenience = single_rate_outcome(&snap, &"EUR".to_string()).unwrap();
    assert_eq!(direct, convenience);
}

#[test]
fn single_rate_reports_missing_target() {
    let snap = snapshot(vec![("PLN".to_string(), dec(4, 0))]);
    let r = single_rate_outcome(&snap, &"EUR".to_string());
    assert!(matches!(r, Err(AppError::MissingRateError)));
}

#[test]
fn conversion_outcome_multiplies_looked_up_rate() {
    let snap = snapshot(vec![("EUR".to_string(), dec(9, 1))]);
    let (rate, exchanged) =
        conversion_outcome(&snap, &"EUR".to_string(), &dec(100, 1)).unwrap();
    assert_eq!(rate, dec(9, 1));
    assert_eq!(exchanged, dec(900, 2));
    assert!(value_eq(&exchanged, &dec(9, 0)));
}

#[test]
fn parse_valid_iso_date() {
    assert_eq!(
        parse_date(b"2024-01-15"),
        Some(Date { year: 2024, month: 1, day: 15 })
    );
    assert_eq!(
        parse_date(b"2024-02-29"),
        Some(Date { year: 2024, month: 2, day: 29 })
    );
    assert_eq!(
        parse_date(b"2000-02-29"),
        Some(Date { year: 2000, month: 2, day: 29 })
    );
}

#[test]
fn parse_rejects_bad_shapes_and_bad_dates() {
    assert_eq!(parse_date(b""), None);
    assert_eq!(parse_date(b"2024-1-15"), None);
    assert_eq!(parse_date(b"2024/01/15"), None);
    assert_eq!(parse_date(b"2024-13-01"), None);
    assert_eq!(parse_date(b"2024-00-10"), None);
    assert_eq!(parse_date(b"2023-02-29"), None);
    assert_eq!(parse_date(b"1900-02-29"), None);
    assert_eq!(parse_date(b"2024-04-31"), None);
    assert_eq!(parse_date(b"0000-01-01"), None);
}

#[test]
fn clock_date_is_a_valid_calendar_date() {
    let d = current_date().unwrap();
    assert!((1..=12).contains(&d.month));
    assert!((1..=31).contains(&d.day));
    assert_eq!(parse_date(&format_date(&d)), Some(d));
}

#[test]
fn format_then_parse_is_identity() {
    let d = Date { year: 2024, month: 3, day: 5 };
    let s = format_date(&d);
    assert_eq!(s, b"2024-03-05".to_vec());
    assert_eq!(parse_date(&s), Some(d));
}

#[test]
fn timestamps_match_unix_epoch() {
    assert_eq!(timestamp(&Date { year: 1970, month: 1, day: 1 }), 0);
    assert_eq!(timestamp(&Date { year: 1970, month: 1, day: 2 }), 86400);
    assert_eq!(timestamp(&Date { year: 2024, month: 1, day: 15 }), 1705276800);
    assert_eq!(timestamp(&Date { year: 1969, month: 12, day: 31 }), -86400);
}

#[test]
fn day_numbers_count_the_calendar() {
    assert_eq!(day_number(&Date { year: 1, month: 1, day: 1 }), 0);
    assert_eq!(day_number(&Date { year: 1, month: 12, day: 31 }), 364);
    assert_eq!(day_number(&Date { year: 2, month: 1, day: 1 }), 365);
}

#[test]
fn minus_days_walks_over_month_and_year_ends() {
    let d = date_minus_days(&Date { year: 2024, month: 3, day: 1 }, 1);
    assert_eq!(d, Date { year: 2024, month: 2, day: 29 });
    let d = date_minus_days(&Date { year: 2024, month: 1, day: 5 }, 15);
    assert_eq!(d, Date { year: 2023, month: 12, day: 21 });
    let d = date_minus_days(&Date { year: 2024, month: 3, day: 30 }, 15);
    assert_eq!(d, Date { year: 2024, month: 3, day: 15 });
}

#[test]
fn month_back_clamps_short_months() {
    assert_eq!(
        month_back(&Date { year: 2024, month: 3, day: 31 }),
        Date { year: 2024, month: 2, day: 29 }
    );
    assert_eq!(
        month_back(&Date { year: 2023, month: 3, day: 31 }),
        Date { year: 2023, month: 2, day: 28 }
    );
    assert_eq!(
        month_back(&Date { year: 2024, month: 1, day: 15 }),
        Date { year: 2023, month: 12, day: 15 }
    );
    assert_eq!(
        month_back(&Date { year: 2024, month: 7, day: 31 }),
        Date { year: 2024, month: 6, day: 30 }
    );
}

#[test]
fn empty_series_projects_to_no_points() {
    let series = ConversionSeries {
        amount: dec(1, 0),
        base: "USD".to_string(),
        start_date: b"2024-02-14".to_vec(),
        end_date: b"2024-03-15".to_vec(),
        rates: vec![],
    };
    let points = project(&series, &"EUR".to_string()).unwrap();
    assert!(points.is_empty());
}

#[test]
fn bounds_of_no_points_is_empty_series_error() {
    let r = compute_bounds(&vec![]);
    assert!(matches!(r, Err(AppError::EmptySeriesError)));
}

#[test]
fn bounds_of_three_points() {
    let points = vec![
        PlotPoint { x: 1, y: dec(2, 0) },
        PlotPoint { x: 5, y: dec(9, 0) },
        PlotPoint { x: 3, y: dec(1, 0) },
    ];
    let b = compute_bounds(&points).unwrap();
    assert_eq!(b.min_x, 1);
    assert_eq!(b.max_x, 5);
    assert_eq!(b.min_y, dec(1, 0));
    assert_eq!(b.max_y, dec(9, 0));
}

#[test]
fn projection_sorts_points_chronologically() {
    let series = ConversionSeries {
        amount: dec(1, 0),
        base: "USD".to_string(),
        start_date: b"2024-01-01".to_vec(),
        end_date: b"2024-01-03".to_vec(),
        rates: vec![
            (b"2024-01-03".to_vec(), vec![("EUR".to_string(), dec(93, 2))]),
            (b"2024-01-01".to_vec(), vec![("EUR".to_string(), dec(91, 2))]),
            (b"2024-01-02".to_vec(), vec![("EUR".to_string(), dec(92, 2))]),
        ],
    };
    let points = project(&series, &"EUR".to_string()).unwrap();
    assert_eq!(points.len(), 3);
    assert_eq!(points[0].x, timestamp(&Date { year: 2024, month: 1, day: 1 }));
    assert_eq!(points[1].x, timestamp(&Date { year: 2024, month: 1, day: 2 }));
    assert_eq!(points[2].x, timestamp(&Date { year: 2024, month: 1, day: 3 }));
    assert_eq!(points[0].y, dec(91, 2));
    assert_eq!(points[1].y, dec(92, 2));
    assert_eq!(points[2].y, dec(93, 2));
}

#[test]
fn projection_reports_invalid_date_keys() {
    let series = ConversionSeries {
        amount: dec(1, 0),
        base: "USD".to_string(),
        start_date: b"2024-01-01".to_vec(),
        end_date: b"2024-01-02".to_vec(),
        rates: vec![(b"2024-1-2".to_vec(), vec![("EUR".to_string(), dec(9, 1))])],
    };
    let r = project(&series, &"EUR".to_string());
    assert!(matches!(r, Err(AppError::InvalidDateError)));
}

#[test]
fn projection_reports_missing_target_rate() {
    let series = ConversionSeries {
        amount: dec(1, 0),
        base: "USD".to_string(),
        start_date: b"2024-01-01".to_vec(),
        end_date: b"2024-01-02".to_vec(),
        rates: vec![(b"2024-01-02".to_vec(), vec![("PLN".to_string(), dec(4, 0))])],
    };
    let r = project(&series, &"EUR".to_string());
    assert!(matches!(r, Err(AppError::MissingRateError)));
}

#[test]
fn sorting_keeps_the_points() {
    let points = vec![
        PlotPoint { x: 9, y: dec(1, 0) },
        PlotPoint { x: 2, y: dec(2, 0) },
        PlotPoint { x: 7, y: dec(3, 0) },
        PlotPoint { x: 2, y: dec(4, 0) },
    ];
    let sorted = sorted_by_timestamp(points.clone());
    assert_eq!(sorted.len(), points.len());
    for w in sorted.windows(2) {
        assert!(w[0].x <= w[1].x);
    }
    for p in &points {
        assert!(sorted.contains(p));
    }
}

#[test]
fn list_wins_over_every_other_flag() {
    let cat = sample_catalog();
    let req = request(Some("USD"), Some("EUR"), Some(dec(100, 1)), true, true);
    let action = plan(&req, &cat, &today());
    assert!(matches!(action, Action::ListCurrencies));
}

#[test]
fn bare_base_code_renders_the_full_table() {
    let cat = sample_catalog();
    let req = request(Some("USD"), None, None, false, false);
    let action = plan(&req, &cat, &today());
    assert!(matches!(action, Action::RenderFullTable { from } if from == "USD"));
}

#[test]
fn base_and_target_render_the_single_rate() {
    let cat = sample_catalog();
    let req = request(Some("USD"), Some("EUR"), None, false, false);
    let action = plan(&req, &cat, &today());
    assert!(matches!(
        action,
        Action::RenderSingleRate { from, to } if from == "USD" && to == "EUR"
    ));
}

#[test]
fn full_shape_renders_the_conversion() {
    let cat = sample_catalog();
    let req = request(Some("USD"), Some("EUR"), Some(dec(100, 1)), false, false);
    let action = plan(&req, &cat, &today());
    assert!(matches!(
        action,
        Action::RenderConversion { from, to, amount }
            if from == "USD" && to == "EUR" && amount == dec(100, 1)
    ));
}

#[test]
fn unknown_base_is_the_guided_exit() {
    let cat = sample_catalog();
    let req = request(Some("XXX"), None, None, false, false);
    assert!(matches!(plan(&req, &cat, &today()), Action::GuidedExit));
    let req = request(None, None, None, false, false);
    assert!(matches!(plan(&req, &cat, &today()), Action::GuidedExit));
}

#[test]
fn invalid_target_without_amount_is_the_internal_error() {
    let cat = sample_catalog();
    let req = request(Some("USD"), Some("XXX"), None, false, false);
    assert!(matches!(plan(&req, &cat, &today()), Action::ReportInternalError));
}

#[test]
fn amount_without_target_is_the_internal_error() {
    let cat = sample_catalog();
    let req = request(Some("USD"), None, Some(dec(100, 1)), false, false);
    assert!(matches!(plan(&req, &cat, &today()), Action::ReportInternalError));
}

#[test]
fn chart_request_spans_the_month_back() {
    let cat = sample_catalog();
    let req = request(Some("USD"), Some("EUR"), None, false, true);
    let action = plan(&req, &cat, &today());
    match action {
        Action::RenderChart { from, to, start, end } => {
            assert_eq!(from, "USD");
            assert_eq!(to, "EUR");
            assert_eq!(start, Date { year: 2024, month: 2, day: 15 });
            assert_eq!(end, today());
        }
        other => panic!("unexpected action: {:?}", action_name(&other)),
    }
}

fn action_name(a: &Action) -> &'static str {
    match a {
        Action::ListCurrencies => "ListCurrencies",
        Action::RenderChart { .. } => "RenderChart",
        Action::GuidedExit => "GuidedExit",
        Action::RenderFullTable { .. } => "RenderFullTable",
        Action::RenderSingleRate { .. } => "RenderSingleRate",
        Action::RenderConversion { .. } => "RenderConversion",
        Action::ReportInternalError => "ReportInternalError",
    }
}

#[test]
fn decimals_format_with_all_their_digits() {
    assert_eq!(format_decimal(&dec(900, 2)), b"9.00".to_vec());
    assert_eq!(format_decimal(&dec(9, 1)), b"0.9".to_vec());
    assert_eq!(format_decimal(&dec(12345, 0)), b"12345".to_vec());
    assert_eq!(format_decimal(&dec(-1055, 2)), b"-10.55".to_vec());
    assert_eq!(format_decimal(&dec(0, 0)), b"0".to_vec());
    assert_eq!(format_decimal(&dec(1, 4)), b"0.0001".to_vec());
}

#[test]
fn labels_truncate_to_the_display_width() {
    assert_eq!(truncated_label(&b"0.9273545".to_vec(), 6), b"0.9273".to_vec());
    assert_eq!(truncated_label(&b"0.92".to_vec(), 6), b"0.92".to_vec());
}

#[test]
fn chart_layout_frames_the_series() {
    let points = vec![
        PlotPoint { x: 100, y: dec(9273545, 7) },
        PlotPoint { x: 300, y: dec(95, 2) },
        PlotPoint { x: 200, y: dec(91, 2) },
    ];
    let start = Date { year: 2024, month: 2, day: 15 };
    let mid = Date { year: 2024, month: 2, day: 29 };
    let end = Date { year: 2024, month: 3, day: 15 };
    let l = chart_layout(&points, &start, &mid, &end).unwrap();
    assert_eq!(l.bounds.min_x, 100);
    assert_eq!(l.bounds.max_x, 300);
    assert_eq!(l.bounds.min_y, dec(91, 2));
    assert_eq!(l.bounds.max_y, dec(95, 2));
    assert_eq!(l.x_label_start, b"2024-02-15".to_vec());
    assert_eq!(l.x_label_mid, b"2024-02-29".to_vec());
    assert_eq!(l.x_label_end, b"2024-03-15".to_vec());
    assert_eq!(l.y_label_min, b"0.91".to_vec());
    assert_eq!(l.y_label_max, b"0.95".to_vec());
}

#[test]
fn chart_layout_of_no_points_is_empty_series_error() {
    let d = Date { year: 2024, month: 3, day: 15 };
    let r = chart_layout(&vec![], &d, &d, &d);
    assert!(matches!(r, Err(AppError::EmptySeriesError)));
}
