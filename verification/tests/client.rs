use radium_cli::budget::{budget_dir, budget_file, BudgetPathError};
use radium_cli::client::{internals_dir, CliSessionManager, ConnectRetry, ExecutionMode, RetryDecision};
use radium_cli::colors::{BrandColor, ColorSupport, RadiumBrandColors, PRIMARY_RGB};
use radium_cli::paths::join;
use radium_cli::privacy::{find_line_number, test_pattern, MatchContext};

#[test]
fn execution_mode_from_args() {
    assert_eq!(ExecutionMode::from_args(Some("http://d".to_string()), true), ExecutionMode::Local);
    assert_eq!(
        ExecutionMode::from_args(Some("http://d".to_string()), false),
        ExecutionMode::Daemon("http://d".to_string())
    );
    assert_eq!(ExecutionMode::from_args(None, false), ExecutionMode::Local);
}

#[test]
fn retry_schedule_doubles_then_gives_up() {
    let mut r = ConnectRetry::new(None);
    assert!(r.can_attempt());
    assert_eq!(r.on_failure(), RetryDecision::RetryAfter(1));
    assert!(r.can_attempt());
    assert_eq!(r.on_failure(), RetryDecision::RetryAfter(2));
    assert!(r.can_attempt());
    assert_eq!(r.on_failure(), RetryDecision::GiveUp);
    assert!(!r.can_attempt());
    assert!(!ConnectRetry::new(Some(0)).can_attempt());
    let mut one = ConnectRetry::new(Some(1));
    assert_eq!(one.on_failure(), RetryDecision::GiveUp);
}

#[test]
fn retry_total_wait() {
    let mut r = ConnectRetry::new(Some(5));
    let mut total = 0;
    while r.can_attempt() {
        match r.on_failure() {
            RetryDecision::RetryAfter(d) => total += d,
            RetryDecision::GiveUp => break,
        }
    }
    assert_eq!(total, 15);
}

#[test]
fn session_and_budget_paths() {
    assert_eq!(CliSessionManager::new("/ws").session_file(), "/ws/.radium/_internals/cli-session");
    assert_eq!(internals_dir("/ws/"), "/ws/.radium/_internals");
    assert_eq!(CliSessionManager::new("").session_file(), ".radium/_internals/cli-session");
    assert_eq!(budget_file(Some("/home/u".to_string())), Ok("/home/u/.radium/budgets/default.json".to_string()));
    assert_eq!(budget_dir(Some("/home/u/".to_string())), Ok("/home/u/.radium/budgets".to_string()));
    assert_eq!(budget_file(None), Err(BudgetPathError::HomeNotSet));
    assert_eq!(join("a", "/b"), "/b");
    assert_eq!(join("a/", "b"), "a/b");
    assert_eq!(join("", "b"), "b");
}

#[test]
fn test_explicit_color_support() {
    let colors = RadiumBrandColors::with_support(ColorSupport::Truecolor);
    assert_eq!(colors.color_support(), ColorSupport::Truecolor);
}

#[test]
fn test_color_conversion() {
    let truecolor = RadiumBrandColors::with_support(ColorSupport::Truecolor);
    let color256 = RadiumBrandColors::with_support(ColorSupport::Color256);
    let color16 = RadiumBrandColors::with_support(ColorSupport::Color16);
    let _ = truecolor.primary(6);
    let _ = color256.primary(6);
    let _ = color16.primary(6);
}

#[test]
fn brand_colors_by_terminal() {
    let (r, g, b) = PRIMARY_RGB;
    let tc = RadiumBrandColors::with_support(ColorSupport::Truecolor);
    assert_eq!(tc.primary(6), BrandColor::TrueColor { r, g, b });
    assert_eq!(RadiumBrandColors::with_support(ColorSupport::Color256).primary(1), BrandColor::TrueColor { r, g, b });
    let c16 = RadiumBrandColors::with_support(ColorSupport::Color16);
    assert_eq!(c16.primary(6), BrandColor::Cyan);
    assert_eq!(c16.error(9), BrandColor::BrightRed);
    assert_eq!(c16.success(0), BrandColor::Black);
    assert_eq!(c16.info(20), BrandColor::BrightCyan);
}

#[test]
fn regex_pattern_report() {
    let rep = test_pattern("[0-9]+", "abc 123 def 45").unwrap();
    assert_eq!(rep.total, 2);
    assert_eq!(
        rep.shown,
        vec![
            MatchContext { context_start: 0, match_start: 4, match_end: 7, context_end: 14 },
            MatchContext { context_start: 0, match_start: 12, match_end: 14, context_end: 14 },
        ]
    );
    assert!(test_pattern("(", "x").is_err());
    let many = test_pattern("a", &"a".repeat(12)).unwrap();
    assert_eq!(many.total, 12);
    assert_eq!(many.shown.len(), 10);
    let long = format!("{}X{}", "-".repeat(30), "-".repeat(30));
    let rep = test_pattern("X", &long).unwrap();
    assert_eq!(rep.shown[0], MatchContext { context_start: 10, match_start: 30, match_end: 31, context_end: 51 });
}

#[test]
fn line_numbers_of_values() {
    assert_eq!(find_line_number("x\nsecret here\nsecret", "secret"), 2);
    assert_eq!(find_line_number("x\ny", "secret"), 0);
    assert_eq!(find_line_number("", ""), 0);
    assert_eq!(find_line_number("a", ""), 1);
}

#[test]
fn privacy_findings_reports() {
    let content = "user: a@b.io\nkey = sk-123\nother a@b.io\n";
    let matches = vec![
        ("email".to_string(), vec!["a@b.io".to_string(), "a@b.io".to_string(), "c@d.io".to_string()]),
        ("api_key".to_string(), vec!["sk-123".to_string()]),
        (
            "phone".to_string(),
            vec!["9".to_string(), "8".to_string(), "7".to_string(), "6".to_string(), "5".to_string()],
        ),
    ];
    let (report, total) = radium_cli::privacy::findings_report(content, &matches);
    assert_eq!(total, 9);
    assert_eq!(report.len(), 3);
    assert_eq!(report[0].occurrences, 3);
    assert_eq!(report[0].shown, vec![(1, "a@b.io".to_string()), (1, "a@b.io".to_string())]);
    assert_eq!(report[0].more, None);
    assert_eq!(report[1].shown, vec![(2, "sk-123".to_string())]);
    assert_eq!(report[2].shown, vec![(0, "9".to_string()), (0, "8".to_string())]);
    assert_eq!(report[2].more, Some(2));
    assert_eq!(report[2].pattern_name, "phone");
}

#[test]
fn brand_color_aliases() {
    let c16 = RadiumBrandColors::with_support(ColorSupport::Color16);
    assert_eq!(c16.primary_color(6), c16.primary(6));
    assert_eq!(c16.success_color(10), BrandColor::BrightGreen);
    assert_eq!(c16.error_color(1), BrandColor::Red);
    assert_eq!(c16.warning_color(11), BrandColor::BrightYellow);
    assert_eq!(c16.info_color(14), BrandColor::BrightCyan);
    let tc = RadiumBrandColors::with_support(ColorSupport::Truecolor);
    assert_eq!(tc.success_color(0), BrandColor::TrueColor { r: 16, g: 185, b: 129 });
}

#[test]
fn retry_wait_fits_until_sixty_three_doublings() {
    let mut r = ConnectRetry::new(Some(100));
    for _ in 0..63 {
        assert!(r.next_wait_fits());
        assert!(matches!(r.on_failure(), RetryDecision::RetryAfter(_)));
    }
    assert!(!r.next_wait_fits());
    let mut last = ConnectRetry::new(Some(64));
    for _ in 0..63 {
        last.on_failure();
    }
    assert!(last.next_wait_fits());
    assert_eq!(last.on_failure(), RetryDecision::GiveUp);
}
