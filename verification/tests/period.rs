use minha_receita_rs::cli::parse_period_arg;
use minha_receita_rs::lifecycle::{already_initialized, parse_period_file, plan_update, UpdateOutcome};
use minha_receita_rs::{Error, Period};

#[test]
fn parses_and_writes_periods() {
    let p: Period = "2026-04".parse().unwrap();
    assert_eq!(p, Period { year: 2026, month: 4 });
    assert_eq!(p.to_string(), "2026-04");
    assert_eq!(Period { year: 7, month: 1 }.to_string(), "0007-01");
    assert_eq!(Period { year: 12345, month: 11 }.to_string(), "12345-11");
}

#[test]
fn rejects_malformed_periods() {
    for s in ["2026-4", "2026-00", "2026-13", "26-04", "2026/04", "2026-04 ", "+026-04", ""] {
        assert_eq!(Period::parse(s), Err(Error::InvalidPeriod(s.to_string())), "{s}");
    }
}

#[test]
fn periods_order_by_year_then_month() {
    let a: Period = "2025-12".parse().unwrap();
    let b: Period = "2026-01".parse().unwrap();
    assert!(a.is_before(&b));
    assert!(!b.is_before(&a));
    assert!(!a.is_before(&a));
    assert!(a < b);
}

#[test]
fn read_period_file_contents() {
    let p = parse_period_file("2026-04\n").unwrap();
    assert_eq!(p, "2026-04".parse::<Period>().unwrap());
    assert!(parse_period_file("").is_err());
}

#[test]
fn update_moves_only_forward() {
    let old: Period = "2026-01".parse().unwrap();
    let new: Period = "2026-04".parse().unwrap();
    assert_eq!(plan_update(old, new), UpdateOutcome::Updated { from: old, to: new });
    assert_eq!(plan_update(new, new), UpdateOutcome::UpToDate(new));
    assert_eq!(plan_update(new, old), UpdateOutcome::UpToDate(new));
}

#[test]
fn period_argument() {
    assert_eq!(parse_period_arg(&None), Ok(None));
    assert_eq!(
        parse_period_arg(&Some("2026-01".to_string())),
        Ok(Some(Period { year: 2026, month: 1 }))
    );
    assert!(parse_period_arg(&Some("jan".to_string())).is_err());
}

#[test]
fn error_messages() {
    assert_eq!(Error::InvalidCnpj("1".into()).message(), "CNPJ inválido: 1");
    assert_eq!(
        Error::InvalidPeriod("x".into()).message(),
        "período inválido (esperado YYYY-MM): x"
    );
    assert_eq!(
        Error::MissingData("/d/companies".into()).message(),
        "arquivo de dado ausente: /d/companies"
    );
    assert_eq!(
        Error::Http { url: "https://h".into(), status: 404 }.message(),
        "HTTP 404: https://h"
    );
    assert_eq!(
        already_initialized("/d/companies").message(),
        "arquivo de dado ausente: /d/companies já existe — use `update` em vez de `init`"
    );
}

#[test]
fn period_file_trims_unicode_white_space() {
    assert_eq!(
        parse_period_file("\u{a0}\t2026-04 \u{3000}\n").unwrap(),
        Period { year: 2026, month: 4 }
    );
    assert_eq!(
        parse_period_file(" 2026-4 "),
        Err(Error::InvalidPeriod("2026-4".to_string()))
    );
}
