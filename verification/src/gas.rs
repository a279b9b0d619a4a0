use vstd::prelude::*;
use vstd::string::*;

use crate::text::{
    decimal_reads_back, decimal_value, shortened_path_fits_and_keeps_tail,
    byte_head, cuts_at, decimal, decimal_text, leading_text, push_decimal, shorten_path,
    shortened_path, signed_decimal, signed_decimal_text,
};

verus! {

broadcast use {
    vstd::utf8::encode_utf8_decode_utf8,
    vstd::utf8::encode_utf8_valid_utf8,
    vstd::string::group_string_axioms,
};

// ── Message kinds ─────────────────────────────────────────────────────────────

/// A one-line message to the user, by the way it is shown.
pub enum Notice {
    /// A neutral note.
    Info(String),
    /// A confirmation that something was done.
    Success(String),
}

// ── Quantities ────────────────────────────────────────────────────────────────

/// A count followed by a space and its unit, as in `"1200 stroops"` or `"64 bytes"`.
pub fn quantity_text(n: u64, unit: &str) -> (s: String)
    ensures
        s@ == decimal(n as nat) + " "@ + unit@,
{
    let mut s = String::new();
    push_decimal(&mut s, n);
    s.append(" ");
    s.append(unit);
    s
}

/// A fee in stroops, as in `"1200 stroops"`.
pub fn stroops_text(n: u64) -> (s: String)
    ensures
        s@ == decimal(n as nat) + " stroops"@,
{
    let mut s = String::new();
    push_decimal(&mut s, n);
    s.append(" stroops");
    s
}

// ── analyze ──────────────────────────────────────────────────────────────────

/// The network to analyse for: the one given on the command line, else the configured one.
pub fn effective_network(given: Option<String>, configured: String) -> (n: String)
    ensures
        n == match given {
            Some(g) => g,
            None => configured,
        },
{
    match given {
        Some(g) => g,
        None => configured,
    }
}

// ── diff ─────────────────────────────────────────────────────────────────────

/// How a candidate build's estimated fee compares with the baseline's.
#[derive(PartialEq, Eq, Structural, Clone, Copy)]
pub enum DiffVerdict {
    /// The estimated fee went down.
    Improved,
    /// The estimated fee rose by more than the regression margin.
    RegressedBeyondMargin,
    /// The estimated fee rose.
    Regressed,
    /// The estimated fee is the same.
    NoChange,
}

/// The verdict for a fee delta (candidate minus baseline) and the comparison's
/// regression flag (set when the fee rose by more than 5%).
pub open spec fn spec_diff_verdict(delta_stroops: int, regression: bool) -> DiffVerdict {
    if delta_stroops < 0 {
        DiffVerdict::Improved
    } else if regression {
        DiffVerdict::RegressedBeyondMargin
    } else if delta_stroops > 0 {
        DiffVerdict::Regressed
    } else {
        DiffVerdict::NoChange
    }
}

/// Classifies a fee delta: a drop is an improvement whatever the regression flag says.
pub fn diff_verdict(delta_stroops: i64, regression: bool) -> (v: DiffVerdict)
    ensures
        v == spec_diff_verdict(delta_stroops as int, regression),
{
    if delta_stroops < 0 {
        DiffVerdict::Improved
    } else if regression {
        DiffVerdict::RegressedBeyondMargin
    } else if delta_stroops > 0 {
        DiffVerdict::Regressed
    } else {
        DiffVerdict::NoChange
    }
}

/// A build comparison is an improvement exactly when the candidate's fee is lower, whatever
/// the regression flag says; otherwise it is a regression beyond the margin when the flag is
/// set, a plain regression when the fee rose, and no change when it stayed the same. Only the
/// sign of the whole delta counts.
pub proof fn diff_verdict_follows_the_delta(delta_stroops: i64, regression: bool)
    ensures
        (spec_diff_verdict(delta_stroops as int, regression) == DiffVerdict::Improved) <==> delta_stroops < 0,
        delta_stroops >= 0 && regression ==> spec_diff_verdict(delta_stroops as int, regression)
            == DiffVerdict::RegressedBeyondMargin,
        delta_stroops > 0 && !regression ==> spec_diff_verdict(delta_stroops as int, regression)
            == DiffVerdict::Regressed,
        delta_stroops == 0 && !regression ==> spec_diff_verdict(delta_stroops as int, regression)
            == DiffVerdict::NoChange,
{
}

/// The sentence shown for each verdict.
pub open spec fn spec_verdict_text(v: DiffVerdict) -> Seq<char> {
    match v {
        DiffVerdict::Improved => "Improved (lower estimated cost)"@,
        DiffVerdict::RegressedBeyondMargin =>
            "Regressed (estimated fee increased by more than 5%)"@,
        DiffVerdict::Regressed => "Regressed (higher estimated cost)"@,
        DiffVerdict::NoChange => "No change"@,
    }
}

/// Each verdict has its own sentence: an improvement is announced as such, the two kinds of
/// regression as regressions (the one beyond the margin naming the 5% margin), and no change
/// as "No change".
pub proof fn verdict_texts_differ(v: DiffVerdict, w: DiffVerdict)
    ensures
        v != w ==> spec_verdict_text(v) != spec_verdict_text(w),
        spec_verdict_text(DiffVerdict::Improved) == "Improved (lower estimated cost)"@,
        spec_verdict_text(DiffVerdict::RegressedBeyondMargin)
            == "Regressed (estimated fee increased by more than 5%)"@,
        spec_verdict_text(DiffVerdict::Regressed) == "Regressed (higher estimated cost)"@,
        spec_verdict_text(DiffVerdict::NoChange) == "No change"@,
{
    reveal_strlit("Improved (lower estimated cost)");
    reveal_strlit("Regressed (estimated fee increased by more than 5%)");
    reveal_strlit("Regressed (higher estimated cost)");
    reveal_strlit("No change");
    let a = "Improved (lower estimated cost)"@;
    let b = "Regressed (estimated fee increased by more than 5%)"@;
    let c = "Regressed (higher estimated cost)"@;
    let d = "No change"@;
    assert(a[0] != b[0] && a[0] != c[0] && a[0] != d[0] && b[0] != d[0] && c[0] != d[0]);
    assert(b.len() != c.len());
}

/// The sentence shown for a verdict.
pub fn verdict_text(v: DiffVerdict) -> (s: &'static str)
    ensures
        s@ == spec_verdict_text(v),
{
    match v {
        DiffVerdict::Improved => "Improved (lower estimated cost)",
        DiffVerdict::RegressedBeyondMargin => "Regressed (estimated fee increased by more than 5%)",
        DiffVerdict::Regressed => "Regressed (higher estimated cost)",
        DiffVerdict::NoChange => "No change",
    }
}

/// A fee delta with its sign always written: `+` before a delta of zero or more.
pub open spec fn spec_delta_text(delta_stroops: int) -> Seq<char> {
    if delta_stroops >= 0 {
        seq!['+'] + decimal(delta_stroops as nat)
    } else {
        signed_decimal(delta_stroops)
    }
}

/// Every delta is written with its sign first, `+` for a rise or no change and `-` for a
/// drop, followed by the digits of its size.
pub proof fn delta_text_is_signed(delta_stroops: int)
    ensures
        spec_delta_text(delta_stroops)[0] == (if delta_stroops >= 0 {
            '+'
        } else {
            '-'
        }),
        spec_delta_text(delta_stroops).drop_first() == decimal(
            (if delta_stroops >= 0 {
                delta_stroops
            } else {
                -delta_stroops
            }) as nat,
        ),
{
    let t = spec_delta_text(delta_stroops);
    let magnitude: int = if delta_stroops >= 0 {
        delta_stroops
    } else {
        -delta_stroops
    };
    assert(t.drop_first() =~= decimal(magnitude as nat));
}

/// Writes a fee delta with its sign, as in `"+150"`, `"+0"` or `"-20"`.
pub fn delta_text(delta_stroops: i64) -> (s: String)
    ensures
        s@ == spec_delta_text(delta_stroops as int),
{
    if delta_stroops >= 0 {
        let mut s = String::new();
        s.push('+');
        push_decimal(&mut s, delta_stroops as u64);
        assert(s@ =~= spec_delta_text(delta_stroops as int));
        s
    } else {
        signed_decimal_text(delta_stroops)
    }
}

// ── estimate ─────────────────────────────────────────────────────────────────

/// Where a deployment estimate stands once its cost is known and shown.
#[derive(PartialEq, Eq, Structural, Clone, Copy)]
pub enum EstimateStage {
    /// The estimate has been made and shown.
    Estimated,
    /// The alert threshold given with it has been saved.
    AlertSaved,
    /// The configured alerts have been checked against it.
    AlertsChecked,
    /// It has been recorded in the cost history.
    Recorded,
}

/// What to do next with a deployment estimate.
#[derive(PartialEq, Eq, Structural, Clone, Copy)]
pub enum EstimateAction {
    /// Save an alert rule for this network with the given threshold.
    SaveAlert(u64),
    /// Check the configured alert rules against the estimate.
    CheckAlerts,
    /// Record the estimate in the cost history.
    Record,
    /// Nothing is left to do.
    Finish,
}

/// The step that follows `stage`: a threshold given with the estimate is saved first, the
/// alerts are checked next, the estimate is recorded last when it is to be saved.
pub open spec fn spec_estimate_next(
    stage: EstimateStage,
    alert_threshold: Option<u64>,
    save: bool,
) -> EstimateAction {
    match stage {
        EstimateStage::Estimated => match alert_threshold {
            Some(t) => EstimateAction::SaveAlert(t),
            None => EstimateAction::CheckAlerts,
        },
        EstimateStage::AlertSaved => EstimateAction::CheckAlerts,
        EstimateStage::AlertsChecked => if save {
            EstimateAction::Record
        } else {
            EstimateAction::Finish
        },
        EstimateStage::Recorded => EstimateAction::Finish,
    }
}

/// The stage reached once `action` has been done (`Finish` ends a run; it is taken to leave
/// the estimate recorded-or-done, from where nothing but `Finish` follows).
pub open spec fn stage_after(action: EstimateAction) -> EstimateStage {
    match action {
        EstimateAction::SaveAlert(_) => EstimateStage::AlertSaved,
        EstimateAction::CheckAlerts => EstimateStage::AlertsChecked,
        EstimateAction::Record => EstimateStage::Recorded,
        EstimateAction::Finish => EstimateStage::Recorded,
    }
}

/// The next step of a deployment estimate, given where it stands, the alert threshold given
/// with it and whether it is to be saved to the history.
pub fn estimate_next(stage: EstimateStage, alert_threshold: Option<u64>, save: bool) -> (a: EstimateAction)
    ensures
        a == spec_estimate_next(stage, alert_threshold, save),
{
    match stage {
        EstimateStage::Estimated => match alert_threshold {
            Some(t) => EstimateAction::SaveAlert(t),
            None => EstimateAction::CheckAlerts,
        },
        EstimateStage::AlertSaved => EstimateAction::CheckAlerts,
        EstimateStage::AlertsChecked => if save {
            EstimateAction::Record
        } else {
            EstimateAction::Finish
        },
        EstimateStage::Recorded => EstimateAction::Finish,
    }
}

/// The actions taken from `stage` on, each followed by the stage it leads to, until there is
/// nothing left to do (or `steps` run out).
pub open spec fn estimate_run(
    stage: EstimateStage,
    alert_threshold: Option<u64>,
    save: bool,
    steps: nat,
) -> Seq<EstimateAction>
    decreases steps,
{
    let a = spec_estimate_next(stage, alert_threshold, save);
    if steps == 0 || a == EstimateAction::Finish {
        seq![a]
    } else {
        seq![a] + estimate_run(stage_after(a), alert_threshold, save, (steps - 1) as nat)
    }
}

/// The steps of an estimate in full: the threshold saved where one was given, the alerts
/// checked, the estimate recorded where it is to be saved, then nothing more.
pub open spec fn estimate_plan(alert_threshold: Option<u64>, save: bool) -> Seq<EstimateAction> {
    let first = match alert_threshold {
        Some(t) => seq![EstimateAction::SaveAlert(t)],
        None => Seq::empty(),
    };
    let last = if save {
        seq![EstimateAction::Record]
    } else {
        Seq::empty()
    };
    first + seq![EstimateAction::CheckAlerts] + last + seq![EstimateAction::Finish]
}

/// Following the steps from a fresh estimate saves the alert (if a threshold was given)
/// before the alerts are checked, checks them exactly once, records the estimate (if it is
/// to be saved) only after that, and then stops: at most four steps.
pub proof fn estimate_runs_in_order(alert_threshold: Option<u64>, save: bool)
    ensures
        estimate_run(EstimateStage::Estimated, alert_threshold, save, 4) == estimate_plan(
            alert_threshold,
            save,
        ),
{
    reveal_with_fuel(estimate_run, 5);
    let run = estimate_run(EstimateStage::Estimated, alert_threshold, save, 4);
    assert(run =~= estimate_plan(alert_threshold, save));
}

/// The WASM upload line of the storage breakdown: `"<fee> stroops  (<bytes> bytes)"`.
pub fn upload_fee_text(fee_stroops: u64, upload_bytes: u64) -> (s: String)
    ensures
        s@ == decimal(fee_stroops as nat) + " stroops  ("@ + decimal(upload_bytes as nat)
            + " bytes)"@,
{
    let mut s = String::new();
    push_decimal(&mut s, fee_stroops);
    s.append(" stroops  (");
    push_decimal(&mut s, upload_bytes);
    s.append(" bytes)");
    s
}

/// The data-entries line of the storage breakdown: `"<entries>  → <fee> stroops"`.
pub fn data_entries_text(entries: u64, fee_stroops: u64) -> (s: String)
    ensures
        s@ == decimal(entries as nat) + "  \u{2192} "@ + decimal(fee_stroops as nat)
            + " stroops"@,
{
    let mut s = String::new();
    push_decimal(&mut s, entries);
    s.append("  \u{2192} ");
    push_decimal(&mut s, fee_stroops);
    s.append(" stroops");
    s
}

/// The rows of the cost summary: base fee, gas fee and storage fee, and the large-contract
/// surcharge only where there is one.
pub open spec fn spec_cost_summary(
    base_fee: nat,
    gas_fee: nat,
    storage_fee: nat,
    surcharge: nat,
) -> Seq<(Seq<char>, Seq<char>)> {
    let rows = seq![
        ("Base tx fee"@, decimal(base_fee) + " stroops"@),
        ("Gas fee"@, decimal(gas_fee) + " stroops"@),
        ("Storage fee"@, decimal(storage_fee) + " stroops"@),
    ];
    if surcharge > 0 {
        rows.push(("Large contract surcharge"@, decimal(surcharge) + " stroops"@))
    } else {
        rows
    }
}

/// The cost summary always shows the base fee, then the gas fee, then the storage fee, each
/// with its own amount; a positive surcharge adds one more row after them and changes none
/// of them, and no surcharge adds nothing.
pub proof fn cost_summary_shows_each_fee(base_fee: nat, gas_fee: nat, storage_fee: nat, surcharge: nat)
    ensures
        spec_cost_summary(base_fee, gas_fee, storage_fee, surcharge)[0] == ("Base tx fee"@, decimal(
            base_fee,
        ) + " stroops"@),
        spec_cost_summary(base_fee, gas_fee, storage_fee, surcharge)[1] == ("Gas fee"@, decimal(
            gas_fee,
        ) + " stroops"@),
        spec_cost_summary(base_fee, gas_fee, storage_fee, surcharge)[2] == ("Storage fee"@, decimal(
            storage_fee,
        ) + " stroops"@),
        surcharge == 0 ==> spec_cost_summary(base_fee, gas_fee, storage_fee, surcharge).len() == 3,
        surcharge > 0 ==> spec_cost_summary(base_fee, gas_fee, storage_fee, surcharge) == spec_cost_summary(
            base_fee,
            gas_fee,
            storage_fee,
            0,
        ).push(("Large contract surcharge"@, decimal(surcharge) + " stroops"@)),
{
}

/// The rows of the cost summary, each a label and a fee.
pub fn cost_summary_rows(
    base_fee_stroops: u64,
    gas_fee_stroops: u64,
    storage_fee_stroops: u64,
    surcharge_stroops: u64,
) -> (rows: Vec<(String, String)>)
    ensures
        rows.deep_view() == spec_cost_summary(
            base_fee_stroops as nat,
            gas_fee_stroops as nat,
            storage_fee_stroops as nat,
            surcharge_stroops as nat,
        ),
{
    let mut rows: Vec<(String, String)> = Vec::new();
    rows.push((String::from_str("Base tx fee"), stroops_text(base_fee_stroops)));
    rows.push((String::from_str("Gas fee"), stroops_text(gas_fee_stroops)));
    rows.push((String::from_str("Storage fee"), stroops_text(storage_fee_stroops)));
    if surcharge_stroops > 0 {
        rows.push((String::from_str("Large contract surcharge"), stroops_text(surcharge_stroops)));
    }
    assert(rows.deep_view() =~= spec_cost_summary(
        base_fee_stroops as nat,
        gas_fee_stroops as nat,
        storage_fee_stroops as nat,
        surcharge_stroops as nat,
    ));
    rows
}

/// The grand total of an estimate: the fee in stroops, then the same fee in XLM as the
/// caller wrote it.
pub fn total_fee_text(total_stroops: u64, fee_xlm: &str) -> (s: String)
    ensures
        s@ == decimal(total_stroops as nat) + " stroops  ("@ + fee_xlm@ + ")"@,
{
    let mut s = String::new();
    push_decimal(&mut s, total_stroops);
    s.append(" stroops  (");
    s.append(fee_xlm);
    s.append(")");
    s
}

/// The note after an optimisation suggestion: what it would save, if anything.
pub open spec fn spec_savings_note(savings_stroops: nat) -> Seq<char> {
    if savings_stroops > 0 {
        "  [saves ~"@ + decimal(savings_stroops) + " stroops]"@
    } else {
        Seq::empty()
    }
}

/// The note after an optimisation suggestion, empty when it saves nothing.
pub fn savings_note(savings_stroops: u64) -> (s: String)
    ensures
        s@ == spec_savings_note(savings_stroops as nat),
{
    if savings_stroops > 0 {
        let mut s = String::from_str("  [saves ~");
        push_decimal(&mut s, savings_stroops);
        s.append(" stroops]");
        s
    } else {
        String::new()
    }
}

/// The confirmation that an alert threshold given with the estimate was saved.
pub fn alert_saved_text(threshold_stroops: u64, network: &str) -> (s: String)
    ensures
        s@ == "Alert saved: notify when fee > "@ + decimal(threshold_stroops as nat)
            + " stroops on "@ + network@,
{
    let mut s = String::from_str("Alert saved: notify when fee > ");
    push_decimal(&mut s, threshold_stroops);
    s.append(" stroops on ");
    s.append(network);
    s
}

/// The heading above the alerts that an estimate set off.
pub fn fired_alerts_heading(count: usize) -> (s: String)
    ensures
        s@ == decimal(count as nat) + " alert(s) fired for this estimate:"@,
{
    let mut s = String::new();
    push_decimal(&mut s, count as u64);
    s.append(" alert(s) fired for this estimate:");
    s
}

/// An alert's label, or `"(unlabelled)"` where it has none.
pub open spec fn spec_label_or_unlabelled(label: Option<Seq<char>>) -> Seq<char> {
    match label {
        Some(l) => l,
        None => "(unlabelled)"@,
    }
}

/// The warning line for one alert that an estimate set off.
pub fn fired_alert_line(threshold_stroops: u64, network: &str, label: &Option<String>) -> (s: String)
    ensures
        s@ == "  \u{26a0}  Threshold "@ + decimal(threshold_stroops as nat) + " stroops exceeded on "@
            + network@ + " \u{2014} "@ + spec_label_or_unlabelled(label.deep_view()),
{
    let mut s = String::from_str("  \u{26a0}  Threshold ");
    push_decimal(&mut s, threshold_stroops);
    s.append(" stroops exceeded on ");
    s.append(network);
    s.append(" \u{2014} ");
    match label {
        Some(l) => s.append(l.as_str()),
        None => s.append("(unlabelled)"),
    }
    s
}

/// The note that an estimate went into the history, naming the first 8 bytes of its id.
pub fn recorded_text(id: &str) -> (s: String)
    requires
        cuts_at(id@, 8),
    ensures
        s@ == "Estimate recorded to history (id: "@ + byte_head(id@, 8) + ")"@,
{
    let head = leading_text(id, 8);
    let mut s = String::from_str("Estimate recorded to history (id: ");
    s.append(head.as_str());
    s.append(")");
    s
}

// ── history ──────────────────────────────────────────────────────────────────

/// One recorded cost estimate, with what the history view reads of it.
pub struct CostHistoryEntry {
    /// The record's identifier.
    pub id: String,
    /// The network the estimate was made for.
    pub network: String,
    /// The path of the estimated wasm.
    pub wasm_path: String,
    /// The estimated total fee.
    pub total_fee_stroops: u64,
    /// When the estimate was made (an RFC 3339 timestamp).
    pub estimated_at: String,
}

/// Whether an entry made for `network` passes the history filter: every entry passes
/// when there is no filter, else those of the named network.
pub open spec fn passes_filter(network: Seq<char>, filter: Option<Seq<char>>) -> bool {
    match filter {
        Some(f) => network == f,
        None => true,
    }
}

/// The positions below `hi` of the entries whose network passes the filter, the most
/// recent (highest) first.
pub open spec fn matches_below(
    networks: Seq<Seq<char>>,
    filter: Option<Seq<char>>,
    hi: int,
) -> Seq<int>
    decreases hi,
{
    if hi <= 0 {
        Seq::empty()
    } else {
        let rest = matches_below(networks, filter, hi - 1);
        if passes_filter(networks[hi - 1], filter) {
            seq![hi - 1] + rest
        } else {
            rest
        }
    }
}

/// The positions of the history entries to show: those that pass the filter, most recent
/// first, at most `limit` of them.
pub open spec fn history_selection(
    networks: Seq<Seq<char>>,
    filter: Option<Seq<char>>,
    limit: nat,
) -> Seq<int> {
    let all = matches_below(networks, filter, networks.len() as int);
    if all.len() <= limit {
        all
    } else {
        all.take(limit as int)
    }
}

proof fn lemma_matches_below(networks: Seq<Seq<char>>, filter: Option<Seq<char>>, hi: int)
    requires
        0 <= hi <= networks.len(),
    ensures
        forall|i: int|
            0 <= i < matches_below(networks, filter, hi).len() ==> {
                let k: int = #[trigger] matches_below(networks, filter, hi)[i];
                &&& 0 <= k < hi
                &&& passes_filter(networks[k], filter)
            },
        forall|i: int, j: int|
            0 <= i < j < matches_below(networks, filter, hi).len() ==> #[trigger] matches_below(
                networks,
                filter,
                hi,
            )[i] > #[trigger] matches_below(networks, filter, hi)[j],
        forall|k: int|
            0 <= k < hi && passes_filter(networks[k], filter) ==> #[trigger] matches_below(
                networks,
                filter,
                hi,
            ).contains(k),
    decreases hi,
{
    if hi > 0 {
        lemma_matches_below(networks, filter, hi - 1);
        let rest = matches_below(networks, filter, hi - 1);
        let m = matches_below(networks, filter, hi);
        if passes_filter(networks[hi - 1], filter) {
            assert(m == seq![hi - 1] + rest);
            assert forall|i: int| 0 <= i < m.len() implies {
                let k: int = #[trigger] m[i];
                &&& 0 <= k < hi
                &&& passes_filter(networks[k], filter)
            } by {
                if i > 0 {
                    assert(m[i] == rest[i - 1]);
                }
            }
            assert forall|i: int, j: int| 0 <= i < j < m.len() implies #[trigger] m[i] > #[trigger] m[j] by {
                assert(m[j] == rest[j - 1]);
                if i > 0 {
                    assert(m[i] == rest[i - 1]);
                }
            }
            assert forall|k: int| 0 <= k < hi && passes_filter(networks[k], filter) implies #[trigger] m.contains(k) by {
                if k == hi - 1 {
                    assert(m[0] == k);
                } else {
                    assert(rest.contains(k));
                    let j: int = choose|j: int| 0 <= j < rest.len() && rest[j] == k;
                    assert(m[j + 1] == k);
                }
            }
        }
    }
}

/// The history view shows at most `limit` entries, each of the filtered network (any, when
/// none is named), the most recent first; it leaves out no matching entry more recent than
/// one it shows, and when it shows fewer than `limit` it leaves out none at all.
pub proof fn history_selection_laws(networks: Seq<Seq<char>>, filter: Option<Seq<char>>, limit: nat)
    ensures
        history_selection(networks, filter, limit).len() <= limit,
        forall|i: int|
            0 <= i < history_selection(networks, filter, limit).len() ==> {
                let k: int = #[trigger] history_selection(networks, filter, limit)[i];
                &&& 0 <= k < networks.len()
                &&& passes_filter(networks[k], filter)
            },
        forall|i: int, j: int|
            0 <= i < j < history_selection(networks, filter, limit).len() ==> #[trigger] history_selection(
                networks,
                filter,
                limit,
            )[i] > #[trigger] history_selection(networks, filter, limit)[j],
        forall|i: int, k: int|
            #![trigger history_selection(networks, filter, limit)[i], networks[k]]
            0 <= i < history_selection(networks, filter, limit).len() && history_selection(
                networks,
                filter,
                limit,
            )[i] < k < networks.len() && passes_filter(networks[k], filter)
                ==> history_selection(networks, filter, limit).contains(k),
        history_selection(networks, filter, limit).len() < limit ==> forall|k: int|
            0 <= k < networks.len() && passes_filter(networks[k], filter) ==> #[trigger] history_selection(
                networks,
                filter,
                limit,
            ).contains(k),
{
    let n: int = networks.len() as int;
    let all = matches_below(networks, filter, n);
    let sel = history_selection(networks, filter, limit);
    lemma_matches_below(networks, filter, n);
    assert forall|i: int| 0 <= i < sel.len() implies sel[i] == all[i] by {}
    assert forall|i: int| 0 <= i < sel.len() implies {
        let k: int = #[trigger] sel[i];
        &&& 0 <= k < networks.len()
        &&& passes_filter(networks[k], filter)
    } by {
        assert(sel[i] == all[i]);
    }
    assert forall|i: int, j: int| 0 <= i < j < sel.len() implies #[trigger] sel[i] > #[trigger] sel[j] by {
        assert(sel[i] == all[i]);
        assert(sel[j] == all[j]);
    }
    assert forall|i: int, k: int|
        #![trigger sel[i], networks[k]]
        0 <= i < sel.len() && sel[i] < k < networks.len() && passes_filter(networks[k], filter)
        implies sel.contains(k) by {
        assert(all.contains(k));
        let j: int = choose|j: int| 0 <= j < all.len() && all[j] == k;
        assert(sel[i] == all[i]);
        if j >= i {
            if j > i {
                assert(all[i] > all[j]);
            }
        }
        assert(j < i);
        assert(sel[j] == k);
    }
    if sel.len() < limit {
        assert(sel == all);
        assert forall|k: int| 0 <= k < networks.len() && passes_filter(networks[k], filter) implies #[trigger] sel.contains(k) by {
            assert(all.contains(k));
        }
    }
}

/// The networks of the entries, in order.
pub open spec fn networks_of(entries: Seq<CostHistoryEntry>) -> Seq<Seq<char>> {
    entries.map_values(|e: CostHistoryEntry| e.network@)
}

/// The positions (into `entries`, oldest first) of the entries the history view shows:
/// newest first, only those of `network` when one is given, at most `limit`.
pub fn select_history(entries: &Vec<CostHistoryEntry>, network: &Option<String>, limit: usize) -> (picked: Vec<usize>)
    ensures
        picked@.map_values(|i: usize| i as int) == history_selection(
            networks_of(entries@),
            network.deep_view(),
            limit as nat,
        ),
{
    let ghost nets = networks_of(entries@);
    let ghost filter = network.deep_view();
    let ghost all = matches_below(nets, filter, entries@.len() as int);
    let mut picked: Vec<usize> = Vec::new();
    let mut hi: usize = entries.len();
    assert(all =~= picked@.map_values(|i: usize| i as int) + matches_below(nets, filter, hi as int));
    while hi > 0 && picked.len() < limit
        invariant
            hi <= entries.len(),
            nets == networks_of(entries@),
            filter == network.deep_view(),
            all == matches_below(nets, filter, entries@.len() as int),
            picked.len() <= limit,
            all == picked@.map_values(|i: usize| i as int) + matches_below(nets, filter, hi as int),
        decreases hi,
    {
        let ghost before = picked@.map_values(|i: usize| i as int);
        let passes = match network {
            Some(f) => entries[hi - 1].network == *f,
            None => true,
        };
        assert(passes == passes_filter(nets[hi - 1], filter));
        if passes {
            picked.push(hi - 1);
            assert(picked@.map_values(|i: usize| i as int) =~= before.push(hi - 1));
            assert(all =~= picked@.map_values(|i: usize| i as int) + matches_below(
                nets,
                filter,
                hi - 1,
            ));
        }
        hi = hi - 1;
    }
    proof {
        let got = picked@.map_values(|i: usize| i as int);
        if hi == 0 {
            assert(all =~= got);
        } else {
            assert(all.take(limit as int) =~= got);
        }
    }
    picked
}

/// The cells of a history row, apart from the XLM column.
pub open spec fn spec_history_row(entry: CostHistoryEntry, fee_xlm: Seq<char>) -> Seq<Seq<char>> {
    seq![
        byte_head(entry.id@, 8),
        entry.network@,
        shortened_path(entry.wasm_path@, 30),
        decimal(entry.total_fee_stroops as nat),
        fee_xlm,
        byte_head(entry.estimated_at@, 10),
    ]
}

/// Whether the history table can show `entry`: its id has 8 bytes and its timestamp 10 to
/// cut at character boundaries.
pub open spec fn history_row_shows(entry: CostHistoryEntry) -> bool {
    &&& cuts_at(entry.id@, 8)
    &&& cuts_at(entry.estimated_at@, 10)
}

/// A history row shows, in order: the first 8 bytes of the record's id, its network, its wasm
/// path shortened to at most 30 characters keeping the tail, its total fee in decimal (which
/// reads back as the fee), the fee in XLM as given, and the first 10 bytes (the date) of its
/// timestamp.
pub proof fn history_row_cells(entry: CostHistoryEntry, fee_xlm: Seq<char>)
    ensures
        spec_history_row(entry, fee_xlm).len() == 6,
        spec_history_row(entry, fee_xlm)[0] == byte_head(entry.id@, 8),
        spec_history_row(entry, fee_xlm)[1] == entry.network@,
        spec_history_row(entry, fee_xlm)[2] == shortened_path(entry.wasm_path@, 30),
        spec_history_row(entry, fee_xlm)[2].len() <= 30,
        entry.wasm_path@.len() <= 30 ==> spec_history_row(entry, fee_xlm)[2] == entry.wasm_path@,
        decimal_value(spec_history_row(entry, fee_xlm)[3]) == entry.total_fee_stroops,
        spec_history_row(entry, fee_xlm)[4] == fee_xlm,
        spec_history_row(entry, fee_xlm)[5] == byte_head(entry.estimated_at@, 10),
{
    shortened_path_fits_and_keeps_tail(entry.wasm_path@, 30);
    decimal_reads_back(entry.total_fee_stroops as nat);
}

/// One row of the history table: short id, network, shortened wasm path, total fee, the
/// fee in XLM as the caller wrote it, and the date of the estimate.
pub fn history_row(entry: &CostHistoryEntry, fee_xlm: &str) -> (row: Vec<String>)
    requires
        history_row_shows(*entry),
    ensures
        row.deep_view() == spec_history_row(*entry, fee_xlm@),
{
    let mut row: Vec<String> = Vec::new();
    row.push(leading_text(entry.id.as_str(), 8));
    row.push(entry.network.clone());
    row.push(shorten_path(entry.wasm_path.as_str(), 30));
    row.push(decimal_text(entry.total_fee_stroops));
    row.push(String::from_str(fee_xlm));
    row.push(leading_text(entry.estimated_at.as_str(), 10));
    assert(row.deep_view() =~= spec_history_row(*entry, fee_xlm@));
    row
}

/// The count line above the history table.
pub fn showing_text(count: usize) -> (s: String)
    ensures
        s@ == decimal(count as nat) + " entries (most recent first)"@,
{
    let mut s = String::new();
    push_decimal(&mut s, count as u64);
    s.append(" entries (most recent first)");
    s
}

// ── alerts ───────────────────────────────────────────────────────────────────

/// A configured cost alert, with what the alert list reads of it.
pub struct CostAlertRule {
    /// The network it watches (`*` for all).
    pub network: String,
    /// The fee above which it fires.
    pub threshold_stroops: u64,
    /// An optional human-readable label.
    pub label: Option<String>,
    /// When it was created (an RFC 3339 timestamp).
    pub created_at: String,
}

/// An alert's label, or `"-"` where it has none.
pub open spec fn spec_label_or_dash(label: Option<Seq<char>>) -> Seq<char> {
    match label {
        Some(l) => l,
        None => "-"@,
    }
}

/// The cells of an alert-list row.
pub open spec fn spec_alert_row(rule: CostAlertRule) -> Seq<Seq<char>> {
    seq![
        rule.network@,
        decimal(rule.threshold_stroops as nat),
        spec_label_or_dash(rule.label.deep_view()),
        byte_head(rule.created_at@, 10),
    ]
}

/// An alert-list row shows the rule's network first, whatever its label, then its threshold,
/// then its label (or `-` where it has none) and nowhere else, then its creation date; two
/// rules that differ only in their labels give rows that differ only in the third cell.
pub proof fn alert_row_cells(rule: CostAlertRule, other: CostAlertRule)
    ensures
        spec_alert_row(rule).len() == 4,
        spec_alert_row(rule)[0] == rule.network@,
        spec_alert_row(rule)[1] == decimal(rule.threshold_stroops as nat),
        spec_alert_row(rule)[2] == match rule.label {
            Some(l) => l@,
            None => "-"@,
        },
        spec_alert_row(rule)[3] == byte_head(rule.created_at@, 10),
        other.network@ == rule.network@ && other.threshold_stroops == rule.threshold_stroops
            && other.created_at@ == rule.created_at@ ==> spec_alert_row(other) == spec_alert_row(
            rule,
        ).update(2, spec_alert_row(other)[2]),
{
    let a = spec_alert_row(rule);
    let b = spec_alert_row(other);
    if other.network@ == rule.network@ && other.threshold_stroops == rule.threshold_stroops
        && other.created_at@ == rule.created_at@ {
        assert(b =~= a.update(2, b[2]));
    }
}

/// One row of the alert list: network, threshold, label (or `-`), creation date.
pub fn alert_row(rule: &CostAlertRule) -> (row: Vec<String>)
    requires
        cuts_at(rule.created_at@, 10),
    ensures
        row.deep_view() == spec_alert_row(*rule),
{
    let mut row: Vec<String> = Vec::new();
    row.push(rule.network.clone());
    row.push(decimal_text(rule.threshold_stroops));
    let label = match &rule.label {
        Some(l) => l.clone(),
        None => String::from_str("-"),
    };
    row.push(label);
    row.push(leading_text(rule.created_at.as_str(), 10));
    assert(row.deep_view() =~= spec_alert_row(*rule));
    row
}

/// The confirmation after an alert rule was set.
pub fn rule_saved_text(index: usize, threshold_stroops: u64, network: &str) -> (s: String)
    ensures
        s@ == "Alert rule #"@ + decimal(index as nat) + " saved: fee > "@ + decimal(
            threshold_stroops as nat,
        ) + " stroops on "@ + network@,
{
    let mut s = String::from_str("Alert rule #");
    push_decimal(&mut s, index as u64);
    s.append(" saved: fee > ");
    push_decimal(&mut s, threshold_stroops);
    s.append(" stroops on ");
    s.append(network);
    s
}

/// What is said after clearing alert rules, by how many were removed.
pub open spec fn spec_clear_text(removed: nat) -> Seq<char> {
    if removed == 0 {
        "No alert rules matched \u{2014} nothing removed."@
    } else {
        "Removed "@ + decimal(removed) + " alert rule(s)."@
    }
}

/// Clearing reports "nothing removed" exactly when no rule was removed; otherwise it names
/// how many were removed, right after "Removed ".
pub proof fn clear_text_names_the_count(removed: nat)
    ensures
        removed == 0 ==> spec_clear_text(removed) == "No alert rules matched \u{2014} nothing removed."@,
        removed > 0 ==> spec_clear_text(removed).subrange(0, 8) == "Removed "@,
        removed > 0 ==> decimal_value(
            spec_clear_text(removed).subrange(8, 8 + decimal(removed).len() as int),
        ) == removed,
{
    if removed > 0 {
        reveal_strlit("Removed ");
        let t = spec_clear_text(removed);
        let d = decimal(removed);
        assert(t.subrange(0, 8) =~= "Removed "@);
        assert(t.subrange(8, 8 + d.len() as int) =~= d);
        decimal_reads_back(removed);
    }
}

/// The notice after clearing alert rules: a note when none matched, else a confirmation
/// with the count.
pub fn clear_notice(removed: usize) -> (n: Notice)
    ensures
        match n {
            Notice::Info(t) => removed == 0 && t@ == spec_clear_text(0),
            Notice::Success(t) => removed > 0 && t@ == spec_clear_text(removed as nat),
        },
{
    if removed == 0 {
        Notice::Info(String::from_str("No alert rules matched \u{2014} nothing removed."))
    } else {
        let mut s = String::from_str("Removed ");
        push_decimal(&mut s, removed as u64);
        s.append(" alert rule(s).");
        Notice::Success(s)
    }
}

} // verus!
