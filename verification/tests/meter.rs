use cantrip::json::parse_json;
use cantrip::meter::meter_human_text;

fn args(words: &[&str]) -> Vec<String> {
    words.iter().map(|w| w.to_string()).collect()
}

fn form(command: &str, sub: &[&str], body: &str) -> Option<String> {
    let v = parse_json(body).unwrap();
    meter_human_text(command, &args(sub), &v)
}

#[test]
fn balance_form() {
    let body = r#"{"available_credits": 435, "reserved_credits": 15, "balance_credits": 450}"#;
    let expected = "Credit Balance\n  Available:  435 credits (~87 operations remaining)\n  Reserved:    15 credits (in-progress operations)\n  Total:      450 credits\n";
    assert_eq!(form("meter", &["balance"], body), Some(expected.to_string()));
}

#[test]
fn balance_without_reserved_credits() {
    let body = r#"{"available_credits": 7, "reserved_credits": 0, "balance_credits": 7}"#;
    let expected = "Credit Balance\n  Available:    7 credits (~1 operations remaining)\n  Reserved:     0 credits\n  Total:        7 credits\n";
    assert_eq!(form("meter", &["balance"], body), Some(expected.to_string()));
}

#[test]
fn history_form() {
    let body = r#"{"entries": [
        {"amount_credits": 200.0, "entry_type": "purchase", "description": "Starter pack", "created_at": "2026-03-07T14:30:12Z"},
        {"amount_credits": -15.0, "entry_type": "usage", "description": null, "created_at": "2026-03-07T15:12:00Z"}
    ]}"#;
    let expected = format!(
        "Credit History (last 2)\n  +200.0  purchase  {:<26}  2026-03-07 14:30\n   -15.0  usage     {:<26}  2026-03-07 15:12\n",
        "Starter pack", ""
    );
    assert_eq!(form("meter", &["history"], body), Some(expected));
}

#[test]
fn empty_history() {
    assert_eq!(
        form("meter", &["history"], r#"{"entries": []}"#),
        Some("No billing history yet.\n".to_string())
    );
}

#[test]
fn tiers_sorted_by_price() {
    let body = r#"{"tiers": [
        {"tier": "scale", "display_name": "Scale", "price_cents": 29900, "credits": 5750},
        {"tier": "starter", "display_name": "Starter", "price_cents": 1900, "credits": 200},
        {"tier": "pro", "display_name": "Pro", "price_cents": 9900, "credits": 1550},
        {"tier": "growth", "display_name": "Growth", "price_cents": 4900, "credits": 650}
    ]}"#;
    let expected = "Credit Packs\n  Starter    $19     200 credits\n  Growth     $49     650 credits\n  Pro        $99   1,550 credits\n  Scale     $299   5,750 credits\n";
    assert_eq!(form("meter", &["tiers"], body), Some(expected.to_string()));
}

#[test]
fn tier_prices_with_cents() {
    let body = r#"{"tiers": [{"display_name": "Mini", "price_cents": 905, "credits": 123456}]}"#;
    assert_eq!(
        form("meter", &["tiers"], body),
        Some("Credit Packs\n  Mini     $9.05 123,456 credits\n".to_string())
    );
}

#[test]
fn other_replies_use_the_generic_form() {
    assert_eq!(form("whoami", &[], r#"{"available_credits": 1}"#), None);
    assert_eq!(form("meter", &["balance"], r#"{"available_credits": 1}"#), None);
    assert_eq!(form("meter", &["tiers"], r#"{"tiers": [{"display_name": "X", "price_cents": -1, "credits": 2}]}"#), None);
    assert_eq!(form("meter", &["history"], r#"{"entries": [{"amount_credits": "1"}]}"#), None);
    assert_eq!(form("meter", &["usage"], r#"{"entries": []}"#), None);
}

#[test]
fn equal_prices_keep_reply_order() {
    let body = r#"{"tiers": [
        {"display_name": "B", "price_cents": 500, "credits": 10},
        {"display_name": "A", "price_cents": 100, "credits": 1},
        {"display_name": "C", "price_cents": 500, "credits": 20}
    ]}"#;
    let expected = "Credit Packs\n  A           $1       1 credits\n  B           $5      10 credits\n  C           $5      20 credits\n";
    assert_eq!(form("meter", &["tiers"], body), Some(expected.to_string()));
}
