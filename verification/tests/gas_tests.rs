use starforge::gas::{
    estimate_next, EstimateAction, EstimateStage,
    alert_row, alert_saved_text, clear_notice, cost_summary_rows, data_entries_text, delta_text,
    diff_verdict, effective_network, fired_alert_line, fired_alerts_heading, history_row,
    quantity_text, recorded_text, rule_saved_text, savings_note, select_history, showing_text,
    stroops_text, total_fee_text, upload_fee_text, verdict_text, CostAlertRule, CostHistoryEntry, DiffVerdict,
    Notice,
};

fn entry(id: &str, network: &str, fee: u64) -> CostHistoryEntry {
    CostHistoryEntry {
        id: id.to_string(),
        network: network.to_string(),
        wasm_path: "target/contract.wasm".to_string(),
        total_fee_stroops: fee,
        estimated_at: "2024-05-01T10:00:00+00:00".to_string(),
    }
}

fn pair(a: &str, b: &str) -> (String, String) {
    (a.to_string(), b.to_string())
}

#[test]
fn quantities() {
    assert_eq!(quantity_text(1500, "instructions"), "1500 instructions");
    assert_eq!(quantity_text(0, "bytes"), "0 bytes");
    assert_eq!(stroops_text(100), "100 stroops");
}

#[test]
fn network_falls_back_to_configuration() {
    assert_eq!(effective_network(Some("mainnet".to_string()), "testnet".to_string()), "mainnet");
    assert_eq!(effective_network(None, "testnet".to_string()), "testnet");
}

#[test]
fn diff_verdicts() {
    assert!(diff_verdict(-5, false) == DiffVerdict::Improved);
    assert!(diff_verdict(-5, true) == DiffVerdict::Improved);
    assert!(diff_verdict(10, true) == DiffVerdict::RegressedBeyondMargin);
    assert!(diff_verdict(0, true) == DiffVerdict::RegressedBeyondMargin);
    assert!(diff_verdict(10, false) == DiffVerdict::Regressed);
    assert!(diff_verdict(0, false) == DiffVerdict::NoChange);
    assert_eq!(verdict_text(DiffVerdict::Improved), "Improved (lower estimated cost)");
    assert_eq!(
        verdict_text(DiffVerdict::RegressedBeyondMargin),
        "Regressed (estimated fee increased by more than 5%)"
    );
    assert_eq!(verdict_text(DiffVerdict::Regressed), "Regressed (higher estimated cost)");
    assert_eq!(verdict_text(DiffVerdict::NoChange), "No change");
}

#[test]
fn deltas_carry_their_sign() {
    assert_eq!(delta_text(150), "+150");
    assert_eq!(delta_text(0), "+0");
    assert_eq!(delta_text(-20), "-20");
    assert_eq!(delta_text(i64::MIN), i64::MIN.to_string());
}

#[test]
fn storage_lines() {
    assert_eq!(upload_fee_text(2500, 1024), "2500 stroops  (1024 bytes)");
    assert_eq!(data_entries_text(3, 300), "3  \u{2192} 300 stroops");
}

#[test]
fn cost_summary_shows_surcharge_only_when_present() {
    assert_eq!(
        cost_summary_rows(100, 200, 300, 0),
        vec![
            pair("Base tx fee", "100 stroops"),
            pair("Gas fee", "200 stroops"),
            pair("Storage fee", "300 stroops"),
        ]
    );
    assert_eq!(cost_summary_rows(1, 2, 3, 4).len(), 4);
    assert_eq!(cost_summary_rows(1, 2, 3, 4)[3], pair("Large contract surcharge", "4 stroops"));
}

#[test]
fn total_fee_line() {
    assert_eq!(total_fee_text(1234567, "0.1234567 XLM"), "1234567 stroops  (0.1234567 XLM)");
}

#[test]
fn savings_notes() {
    assert_eq!(savings_note(0), "");
    assert_eq!(savings_note(42), "  [saves ~42 stroops]");
}

#[test]
fn alert_messages() {
    assert_eq!(
        alert_saved_text(5000, "testnet"),
        "Alert saved: notify when fee > 5000 stroops on testnet"
    );
    assert_eq!(fired_alerts_heading(2), "2 alert(s) fired for this estimate:");
    assert_eq!(
        fired_alert_line(5000, "mainnet", &None),
        "  \u{26a0}  Threshold 5000 stroops exceeded on mainnet \u{2014} (unlabelled)"
    );
    assert_eq!(
        fired_alert_line(7, "*", &Some("budget".to_string())),
        "  \u{26a0}  Threshold 7 stroops exceeded on * \u{2014} budget"
    );
    assert_eq!(
        rule_saved_text(3, 9000, "testnet"),
        "Alert rule #3 saved: fee > 9000 stroops on testnet"
    );
}

#[test]
fn clearing_alerts() {
    match clear_notice(0) {
        Notice::Info(t) => assert_eq!(t, "No alert rules matched \u{2014} nothing removed."),
        _ => panic!("expected a note"),
    }
    match clear_notice(4) {
        Notice::Success(t) => assert_eq!(t, "Removed 4 alert rule(s)."),
        _ => panic!("expected a confirmation"),
    }
}

#[test]
fn recorded_names_the_short_id() {
    assert_eq!(
        recorded_text("3f2a9c1e-77aa-4bcd-9e00-123456789abc"),
        "Estimate recorded to history (id: 3f2a9c1e)"
    );
}

#[test]
fn history_is_most_recent_first_filtered_and_limited() {
    let entries = vec![
        entry("aaaaaaaa1", "testnet", 1),
        entry("bbbbbbbb2", "mainnet", 2),
        entry("cccccccc3", "testnet", 3),
        entry("dddddddd4", "testnet", 4),
        entry("eeeeeeee5", "mainnet", 5),
    ];
    assert_eq!(select_history(&entries, &None, 10), vec![4, 3, 2, 1, 0]);
    assert_eq!(select_history(&entries, &None, 2), vec![4, 3]);
    assert_eq!(select_history(&entries, &Some("testnet".to_string()), 10), vec![3, 2, 0]);
    assert_eq!(select_history(&entries, &Some("testnet".to_string()), 2), vec![3, 2]);
    assert_eq!(select_history(&entries, &Some("futurenet".to_string()), 10), Vec::<usize>::new());
    assert_eq!(select_history(&entries, &None, 0), Vec::<usize>::new());
    assert_eq!(select_history(&Vec::new(), &None, 10), Vec::<usize>::new());
}

#[test]
fn history_rows() {
    let mut e = entry("0123456789abcdef", "testnet", 12345);
    e.wasm_path = "/very/long/path/to/the/build/output/contract_optimized.wasm".to_string();
    let row = history_row(&e, "0.0012345");
    assert_eq!(
        row,
        vec![
            "01234567".to_string(),
            "testnet".to_string(),
            format!("\u{2026}{}", &e.wasm_path[e.wasm_path.len() - 29..]),
            "12345".to_string(),
            "0.0012345".to_string(),
            "2024-05-01".to_string(),
        ]
    );
    assert_eq!(showing_text(3), "3 entries (most recent first)");
}

#[test]
fn alert_rows() {
    let rule = CostAlertRule {
        network: "*".to_string(),
        threshold_stroops: 100000,
        label: None,
        created_at: "2024-06-30T08:00:00+00:00".to_string(),
    };
    assert_eq!(alert_row(&rule), vec!["*", "100000", "-", "2024-06-30"]);
    let labelled = CostAlertRule { label: Some("prod".to_string()), ..rule };
    assert_eq!(alert_row(&labelled)[2], "prod");
}

fn steps(threshold: Option<u64>, save: bool) -> Vec<EstimateAction> {
    let mut stage = EstimateStage::Estimated;
    let mut out = Vec::new();
    loop {
        let a = estimate_next(stage, threshold, save);
        out.push(a);
        stage = match a {
            EstimateAction::SaveAlert(_) => EstimateStage::AlertSaved,
            EstimateAction::CheckAlerts => EstimateStage::AlertsChecked,
            EstimateAction::Record => EstimateStage::Recorded,
            EstimateAction::Finish => break,
        };
    }
    out
}

#[test]
fn estimate_steps_in_order() {
    assert!(steps(Some(500), true)
        == vec![
            EstimateAction::SaveAlert(500),
            EstimateAction::CheckAlerts,
            EstimateAction::Record,
            EstimateAction::Finish,
        ]);
    assert!(steps(None, true)
        == vec![EstimateAction::CheckAlerts, EstimateAction::Record, EstimateAction::Finish]);
    assert!(steps(Some(1), false)
        == vec![EstimateAction::SaveAlert(1), EstimateAction::CheckAlerts, EstimateAction::Finish]);
    assert!(steps(None, false) == vec![EstimateAction::CheckAlerts, EstimateAction::Finish]);
}
