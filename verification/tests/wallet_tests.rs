use pipe_gui::wallet::{
    classify_usage_line, filter_numeric, filter_usage_report, parse_sol_output,
    parse_token_output, prefixed_value, usage_sections, UsageLineStyle, UsageSectionKind,
    WalletPanelState, WithdrawMode,
};

#[test]
fn sol_output_parses_address_and_balance() {
    let out = "Token refreshed\nPubkey: 9xQeWvG816bUx9EPf2oN3hx2nGjkpToday\nSOL:  1.2345  \n";
    let (address, sol) = parse_sol_output(out);
    assert_eq!(address, "9xQeWvG816bUx9EPf2oN3hx2nGjkpToday");
    assert_eq!(sol, "1.2345");
}

#[test]
fn missing_values_fall_back_to_dash() {
    let (address, sol) = parse_sol_output("nothing here");
    assert_eq!(address, "-");
    assert_eq!(sol, "-");
}

#[test]
fn token_output_parses_balance_and_mint() {
    let out = "UI: 250.5\nMint: SomeMintAddress\n";
    let (balance, mint) = parse_token_output(out);
    assert_eq!(balance, "250.5");
    assert_eq!(mint, "SomeMintAddress");
}

#[test]
fn absent_mint_uses_well_known_one() {
    let (balance, mint) = parse_token_output("UI: 1\n");
    assert_eq!(balance, "1");
    assert_eq!(mint, "35mhJor7qTD212YXdLkB8sRzTbaYRXmTzHTCFSDP5voJ");
}

#[test]
fn last_prefixed_line_wins() {
    let lines: Vec<String> = vec!["SOL: 1".to_string(), "SOL: 2".to_string()];
    assert_eq!(prefixed_value(&lines, "SOL:", "-"), "2");
}

#[test]
fn usage_report_drops_housekeeping_lines() {
    let out = "Token expired, refreshing\nToken Usage Report\n\nStorage (Uploads):\n  3 GB\n";
    assert_eq!(filter_usage_report(out), "Storage (Uploads):\n  3 GB");
}

#[test]
fn numeric_filter_keeps_digits_and_dots() {
    let mut s = "ab1.2c3!".to_string();
    filter_numeric(&mut s);
    assert_eq!(s, "1.23");
    let mut s = "12.5".to_string();
    filter_numeric(&mut s);
    assert_eq!(s, "12.5");
    let mut s = "none".to_string();
    filter_numeric(&mut s);
    assert_eq!(s, "");
}

#[test]
fn usage_line_styles() {
    match classify_usage_line("  Burned: 1.2 PIPE") {
        UsageLineStyle::Token { before } => assert_eq!(before, "  Burned: 1.2 "),
        _ => panic!("a token mention wins"),
    }
    match classify_usage_line("  Downloads: 3 GB") {
        UsageLineStyle::Data { before } => assert_eq!(before, "  Downloads: 3 "),
        _ => panic!("a data amount comes second"),
    }
    assert!(matches!(classify_usage_line("Burned: 7"), UsageLineStyle::Burned));
    assert!(matches!(classify_usage_line("Treasury: 7"), UsageLineStyle::Treasury));
    assert!(matches!(classify_usage_line("hello"), UsageLineStyle::Plain));
}

#[test]
fn wallet_state_defaults() {
    let st = WalletPanelState::default();
    assert_eq!(st.sol_address, "");
    assert!(!st.is_loading);
    assert!(st.withdraw_mode == WithdrawMode::SwapSolForPipe);
    assert!(WithdrawMode::default() == WithdrawMode::SwapSolForPipe);
}

#[test]
fn usage_report_groups_into_sections() {
    let report = "intro line\nStorage (Uploads):\n  3 GB stored\n\nBandwidth (Downloads):\n  1 GB served\nTotal:\n  4 PIPE\n";
    let sections = usage_sections(report);
    assert_eq!(sections.len(), 4);
    assert!(matches!(sections[0].kind, UsageSectionKind::Untitled));
    assert_eq!(sections[0].lines, vec!["intro line".to_string()]);
    assert!(matches!(sections[1].kind, UsageSectionKind::Storage));
    assert_eq!(sections[1].lines, vec!["  3 GB stored".to_string()]);
    assert!(matches!(sections[2].kind, UsageSectionKind::Bandwidth));
    assert_eq!(sections[2].lines, vec!["  1 GB served".to_string()]);
    assert!(matches!(sections[3].kind, UsageSectionKind::Total));
    assert_eq!(sections[3].lines, vec!["  4 PIPE".to_string()]);
}

#[test]
fn empty_section_is_not_flushed() {
    let report = "Storage (Uploads):\nBandwidth (Downloads):\n  1 GB\n";
    let sections = usage_sections(report);
    assert_eq!(sections.len(), 1);
    assert!(matches!(sections[0].kind, UsageSectionKind::Bandwidth));
}
