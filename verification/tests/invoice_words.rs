use project_invoicer::database::Artist;
use project_invoicer::pdf_generator::{
    artist_heading, blank, calculate_days_difference, due_terms, due_terms_after, format_currency,
    format_date,
};
use project_invoicer::text::{decimal_string, le_text};

fn s(text: &str) -> String {
    text.to_string()
}

fn artist(name: &str, company: Option<&str>) -> Artist {
    Artist {
        id: s("a"),
        name: s(name),
        company_name: company.map(s),
        email: None,
        phone: None,
        address: None,
        wire_details: None,
        notes: None,
        created_at: s("t"),
        updated_at: s("t"),
    }
}

#[test]
fn currency_is_grouped_by_thousands() {
    assert_eq!(format_currency(0, 0), "$0.00");
    assert_eq!(format_currency(250, 50), "$250.50");
    assert_eq!(format_currency(999, 5), "$999.05");
    assert_eq!(format_currency(1000, 0), "$1,000.00");
    assert_eq!(format_currency(1234567, 89), "$1,234,567.89");
    assert_eq!(format_currency(12, 100), "$12.100");
    assert_eq!(format_currency(i64::MAX, 99), "$9,223,372,036,854,775,807.99");
}

#[test]
fn currency_of_negative_amounts_keeps_the_sign_in_the_groups() {
    assert_eq!(format_currency(-1, -50), "$-1.-50");
    assert_eq!(format_currency(-12, -5), "$-12.-5");
    assert_eq!(format_currency(-123, 0), "$-,123.00");
    assert_eq!(format_currency(-1234, 0), "$-1,234.00");
    assert_eq!(format_currency(i64::MIN, 0), "$-9,223,372,036,854,775,808.00");
}

#[test]
fn due_terms_count_the_days() {
    assert_eq!(due_terms(&s("2024-01-01"), &s("2024-01-01")), "Upon Receipt");
    assert_eq!(due_terms(&s("2024-01-01"), &s("2024-01-31")), "Net 30");
    assert_eq!(due_terms(&s("2024-01-01"), &s("2024-01-15")), "Net 14");
    assert_eq!(due_terms(&s("2024-02-01"), &s("2024-03-01")), "Net 29");
    assert_eq!(due_terms(&s("2024-01-31"), &s("2024-01-01")), "Net -30");
    assert_eq!(due_terms(&s("soon"), &s("later")), "Upon Receipt");
    assert_eq!(due_terms(&s("2024-01-01"), &s("later")), "Upon Receipt");
    assert_eq!(due_terms(&s("2024-1-1"), &s("2024-01-01")), "Upon Receipt");
    assert_eq!(due_terms_after(false, 0), "Upon Receipt");
    assert_eq!(due_terms_after(true, 12), "Upon Receipt");
    assert_eq!(due_terms_after(false, 45), "Net 45");
}

#[test]
fn days_between_dates() {
    assert_eq!(calculate_days_difference("2024-01-01", "2024-01-31"), 30);
    assert_eq!(calculate_days_difference("2023-12-31", "2024-12-31"), 366);
    assert_eq!(calculate_days_difference("2024-03-01", "2024-02-28"), -2);
    assert_eq!(calculate_days_difference("2024-02-30", "2024-03-01"), 0);
    assert_eq!(calculate_days_difference("", "2024-03-01"), 0);
}

#[test]
fn dates_are_written_in_words() {
    assert_eq!(format_date("2024-03-05"), "05 March 2024");
    assert_eq!(format_date("2015-09-05"), "05 September 2015");
    assert_eq!(format_date("1999-12-31"), "31 December 1999");
    assert_eq!(format_date("next week"), "next week");
    assert_eq!(format_date("2024-13-01"), "2024-13-01");
    assert_eq!(format_date(""), "");
}

#[test]
fn heading_names_the_company_when_given() {
    assert_eq!(artist_heading(&artist("Ann", None)), "Ann");
    assert_eq!(artist_heading(&artist("Ann", Some("Ann Ltd"))), "Ann / Ann Ltd");
    assert_eq!(artist_heading(&artist("Ann", Some(""))), "Ann");
    assert_eq!(artist_heading(&artist("Ann", Some(" \t\n"))), "Ann");
    assert_eq!(artist_heading(&artist("Ann", Some("\u{a0}\u{2003}\u{3000}"))), "Ann");
    assert_eq!(artist_heading(&artist("Ann", Some(" x "))), "Ann /  x ");
}

#[test]
fn blank_agrees_with_trimming() {
    for text in ["", " ", "\t\r\n", "a", " a ", "\u{85}", "\u{200b}", "\u{1680}\u{2028}\u{2029}\u{202f}\u{205f}", "\u{feff}", "é"] {
        assert_eq!(blank(text), text.trim().is_empty());
    }
}

#[test]
fn decimal_numerals() {
    assert_eq!(decimal_string(0), "0");
    assert_eq!(decimal_string(9), "9");
    assert_eq!(decimal_string(10), "10");
    assert_eq!(decimal_string(1234567890), "1234567890");
}

#[test]
fn text_order_is_byte_order() {
    for (a, b) in [("", ""), ("", "a"), ("a", ""), ("a", "b"), ("b", "a"), ("ab", "abc"), ("Z", "a"), ("z", "é"), ("é", "z"), ("日本", "日本語")] {
        assert_eq!(le_text(a, b), a <= b);
    }
}
