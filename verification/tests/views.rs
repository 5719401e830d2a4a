use eikodan::config::{bind_address, client_for_ticket, css_built, database_login, listen_port, pipe_client_count};
use eikodan::report::{build_report, report_row_count, ReportRow};
use eikodan::text::{parse_i32, parse_u16, parse_usize, trimmed};
use eikodan::user::{get_user, greeting};
use eikodan::words::count_words;

#[test]
fn user_view_is_derived_from_id() {
    let v = get_user(7);
    assert_eq!(v.id, 7);
    assert_eq!(v.name, "ユーザー7");
    assert_eq!(v.email, "user7@example.com");
    assert_eq!(v.role, "member");
    assert_eq!(v.recent_activities.len(), 3);
    assert_eq!(v.recent_activities[0].action, "ログイン");
    assert_eq!(v.recent_activities[2].at, "2026-06-13T10:30:00Z");
    assert_eq!(get_user(0).name, "ユーザー0");
    assert_eq!(get_user(4294967295).email, "user4294967295@example.com");
}

#[test]
fn greeting_wraps_the_name() {
    assert_eq!(greeting("tester"), "Hello, tester!");
    assert_eq!(greeting(""), "Hello, !");
}

fn row(id: i32, amount: i32) -> ReportRow {
    ReportRow {
        id,
        order_no: format!("ORD-{id:07}"),
        customer: "c".to_string(),
        status: "paid".to_string(),
        qty: 1,
        unit_price: amount,
        amount,
    }
}

#[test]
fn report_totals() {
    let r = build_report(vec![row(1, 101), row(2, 204), row(3, 309)]);
    assert_eq!(r.total_rows, 3);
    assert_eq!(r.total_amount, 614);
    assert_eq!(r.rows[1].order_no, "ORD-0000002");
    let r = build_report(vec![row(1, i32::MAX), row(2, i32::MAX)]);
    assert_eq!(r.total_amount, 2 * i32::MAX as i64);
    let r = build_report(vec![]);
    assert_eq!((r.total_rows, r.total_amount), (0, 0));
}

#[test]
fn report_row_count_defaults_and_clamps() {
    assert_eq!(report_row_count(None), 1000);
    assert_eq!(report_row_count(Some("25")), 25);
    assert_eq!(report_row_count(Some("abc")), 1000);
    assert_eq!(report_row_count(Some("-5")), 0);
    assert_eq!(report_row_count(Some("1000000")), 100000);
    assert_eq!(report_row_count(Some("99999999999")), 1000);
    assert_eq!(report_row_count(Some("+7")), 7);
    assert_eq!(report_row_count(Some(" 7")), 1000);
}

#[test]
fn number_parsing_matches_std() {
    for s in ["0", "7", "+7", "-7", "", "+", "-", "65535", "65536", "-0", "2147483647", "2147483648",
              "-2147483648", "-2147483649", "007", "1e3", " 1", "+-1", "18446744073709551615",
              "18446744073709551616", "٣"] {
        assert_eq!(parse_i32(s), s.parse::<i32>().ok(), "i32 {s:?}");
        assert_eq!(parse_u16(s), s.parse::<u16>().ok(), "u16 {s:?}");
        assert_eq!(parse_usize(s), s.parse::<usize>().ok(), "usize {s:?}");
    }
}

#[test]
fn trimming_matches_std() {
    for s in ["", "  a b  ", "\t\n x \r", "\u{3000}全角\u{3000}", "\u{85}x\u{2029}", "\u{200b}x", "   "] {
        assert_eq!(trimmed(s), s.trim(), "{s:?}");
    }
}

#[test]
fn listen_settings() {
    assert_eq!(listen_port(None), 3000);
    assert_eq!(listen_port(Some("3001")), 3001);
    assert_eq!(listen_port(Some("70000")), 3000);
    assert_eq!(listen_port(Some("x")), 3000);
    assert_eq!(bind_address(None, None), "127.0.0.1:3000");
    assert_eq!(bind_address(Some("0.0.0.0"), Some("8080")), "0.0.0.0:8080");
}

#[test]
fn css_mode() {
    assert!(css_built(true, None));
    assert!(css_built(false, Some("built")));
    assert!(!css_built(false, Some("cdn")));
    assert!(!css_built(false, Some("built ")));
    assert!(!css_built(false, None));
}

#[test]
fn pipe_clients() {
    assert_eq!(pipe_client_count(None, None), 8);
    assert_eq!(pipe_client_count(Some("3"), Some("5")), 3);
    assert_eq!(pipe_client_count(None, Some("5")), 5);
    assert_eq!(pipe_client_count(Some("x"), Some("5")), 8);
    assert_eq!(pipe_client_count(Some("0"), None), 1);
    assert_eq!(client_for_ticket(10, 4), 2);
    assert_eq!(client_for_ticket(3, 4), 3);
}

#[test]
fn words_are_counted_once_each() {
    let words = vec!["lint", "format", "lint", "showcase"];
    let counts = count_words(&words);
    let pairs: Vec<(String, u32)> = counts.iter().map(|c| (c.word.clone(), c.count)).collect();
    assert_eq!(
        pairs,
        vec![("lint".to_string(), 2), ("format".to_string(), 1), ("showcase".to_string(), 1)]
    );
    assert!(count_words(&vec![]).is_empty());
}

#[test]
fn database_login_defaults() {
    assert_eq!(database_login(None, None), ("postgres".to_string(), "lastshot".to_string()));
    assert_eq!(database_login(Some("dan"), Some("lastshot_dan2")), ("dan".to_string(), "lastshot_dan2".to_string()));
}
