//! The checks of the VPN chain, and the alerts about them.

use vstd::prelude::*;

use crate::config::{HealthConfig, HealthModel};
use crate::text::chars::text_eq;
use crate::text::number::{append_u64, decimal};
use crate::text::split::{join, join_texts};

verus! {

/// What is checked: a profile through the relay, or an address.
#[derive(Debug)]
pub enum Probe {
    Relay(String),
    Url(String),
}

/// What is checked.
pub enum ProbeModel {
    Relay(Seq<char>),
    Url(Seq<char>),
}

impl View for Probe {
    type V = ProbeModel;

    open spec fn view(&self) -> ProbeModel {
        match self {
            Probe::Relay(sni) => ProbeModel::Relay(sni@),
            Probe::Url(url) => ProbeModel::Url(url@),
        }
    }
}

impl ProbeModel {
    /// The name of the check.
    pub open spec fn name(self) -> Seq<char> {
        match self {
            ProbeModel::Relay(sni) => "relay → exit ("@ + sni + ")"@,
            ProbeModel::Url(_) => "подписки"@,
        }
    }
}

/// Probes as models.
pub open spec fn probe_models(probes: Seq<Probe>) -> Seq<ProbeModel> {
    Seq::new(probes.len(), |i: int| probes[i]@)
}

/// Everything that is checked: each profile, then the subscriptions.
pub open spec fn probes_of(config: HealthModel) -> Seq<ProbeModel> {
    let relayed = config.snis.map_values(|sni: Seq<char>| ProbeModel::Relay(sni));
    match config.subscription_url {
        Some(url) => relayed.push(ProbeModel::Url(url)),
        None => relayed,
    }
}

/// The result of a check.
#[derive(Debug)]
pub struct CheckResult {
    pub name: String,
    pub ok: bool,
    pub detail: String,
}

/// What the result of a check is.
pub struct ResultModel {
    pub name: Seq<char>,
    pub ok: bool,
    pub detail: Seq<char>,
}

impl View for CheckResult {
    type V = ResultModel;

    open spec fn view(&self) -> ResultModel {
        ResultModel { name: self.name@, ok: self.ok, detail: self.detail@ }
    }
}

/// Results as models.
pub open spec fn result_models(results: Seq<CheckResult>) -> Seq<ResultModel> {
    Seq::new(results.len(), |i: int| results[i]@)
}

/// The latest results.
#[derive(Debug)]
pub struct HealthSnapshot {
    pub checked_at: i64,
    pub results: Vec<CheckResult>,
}

/// What came of a probe: an HTTP status, or the reason why there is none.
pub open spec fn checked(probe: ProbeModel, outcome: Result<u16, String>) -> ResultModel {
    match outcome {
        Ok(status) => ResultModel {
            name: probe.name(),
            ok: true,
            detail: "HTTP "@ + decimal(status as nat),
        },
        Err(reason) => ResultModel { name: probe.name(), ok: false, detail: reason@ },
    }
}

/// All results are good.
pub open spec fn all_good(results: Seq<ResultModel>) -> bool {
    forall|i: int| 0 <= i < results.len() ==> (#[trigger] results[i]).ok
}

/// The number of good results.
pub open spec fn good_count(results: Seq<ResultModel>) -> nat
    decreases results.len(),
{
    if results.len() == 0 {
        0
    } else {
        good_count(results.drop_last()) + (if results.last().ok {
            1nat
        } else {
            0
        })
    }
}

/// A result as it is shown.
pub open spec fn result_line(result: ResultModel) -> Seq<char> {
    (if result.ok {
        "✅"@
    } else {
        "❌"@
    }) + " "@ + result.name + " — "@ + result.detail
}

/// Results as they are shown.
pub open spec fn results_text(results: Seq<ResultModel>) -> Seq<char> {
    join(results.map_values(|r: ResultModel| result_line(r)), "\n"@)
}

impl Probe {
    /// The name of the check.
    pub fn name(&self) -> (r: String)
        ensures
            r@ == self@.name(),
    {
        match self {
            Probe::Relay(sni) => {
                let mut name = "relay → exit (".to_string();
                name.append(sni);
                name.append(")");
                name
            },
            Probe::Url(_) => "подписки".to_string(),
        }
    }

    /// The result of the check.
    pub fn result(&self, outcome: Result<u16, String>) -> (r: CheckResult)
        ensures
            r@ == checked(self@, outcome),
    {
        let name = self.name();
        match outcome {
            Ok(status) => {
                let mut detail = "HTTP ".to_string();
                append_u64(&mut detail, status as u64);
                CheckResult { name, ok: true, detail }
            },
            Err(reason) => CheckResult { name, ok: false, detail: reason },
        }
    }
}

/// Where a profile is asked for, on the port of the relay.
pub fn relay_url(sni: &str, port: u16) -> (r: String)
    ensures
        r@ == "https://"@ + sni@ + ":"@ + decimal(port as nat) + "/"@,
{
    let mut url = "https://".to_string();
    url.append(sni);
    url.append(":");
    append_u64(&mut url, port as u64);
    url.append("/");
    url
}

impl HealthConfig {
    /// Everything that is checked, in order.
    pub fn probes(&self) -> (r: Vec<Probe>)
        ensures
            probe_models(r@) == probes_of(self@),
    {
        let ghost all = self.snis.deep_view();
        let ghost relayed = all.map_values(|sni: Seq<char>| ProbeModel::Relay(sni));
        let mut out: Vec<Probe> = Vec::new();
        let mut i: usize = 0;
        assert(probe_models(out@) =~= relayed.take(0));
        while i < self.snis.len()
            invariant
                i <= self.snis@.len(),
                all == self.snis.deep_view(),
                relayed == all.map_values(|sni: Seq<char>| ProbeModel::Relay(sni)),
                probe_models(out@) == relayed.take(i as int),
            decreases self.snis@.len() - i,
        {
            let ghost before = out@;
            assert(all[i as int] == self.snis@[i as int]@);
            let probe = Probe::Relay(self.snis[i].clone());
            let ghost model = probe@;
            out.push(probe);
            assert(probe_models(out@) =~= probe_models(before).push(model));
            assert(relayed.take(i + 1) =~= relayed.take(i as int).push(relayed[i as int]));
            i = i + 1;
        }
        assert(relayed.take(i as int) =~= relayed);
        if let Some(url) = &self.subscription_url {
            let ghost before = out@;
            let probe = Probe::Url(url.clone());
            let ghost model = probe@;
            out.push(probe);
            assert(probe_models(out@) =~= probe_models(before).push(model));
        }
        out
    }
}

/// The results of the checks, for what came of each probe.
pub open spec fn run_results(probes: Seq<ProbeModel>, outcomes: Seq<Result<u16, String>>) -> Seq<
    ResultModel,
> {
    Seq::new(probes.len(), |i: int| checked(probes[i], outcomes[i]))
}

/// The results of the checks, for what came of each probe.
pub fn run_checks(probes: &Vec<Probe>, outcomes: Vec<Result<u16, String>>) -> (r: Vec<CheckResult>)
    requires
        outcomes@.len() == probes@.len(),
    ensures
        result_models(r@) == run_results(probe_models(probes@), outcomes@),
{
    let ghost all = run_results(probe_models(probes@), outcomes@);
    let mut out: Vec<CheckResult> = Vec::new();
    let mut i: usize = 0;
    assert(result_models(out@) =~= all.take(0));
    while i < probes.len()
        invariant
            i <= probes@.len(),
            outcomes@.len() == probes@.len(),
            all == run_results(probe_models(probes@), outcomes@),
            result_models(out@) == all.take(i as int),
        decreases probes@.len() - i,
    {
        let ghost before = out@;
        let outcome = match &outcomes[i] {
            Ok(status) => Ok(*status),
            Err(reason) => Err(reason.clone()),
        };
        let result = probes[i].result(outcome);
        let ghost model = result@;
        assert(model == all[i as int]);
        out.push(result);
        assert(result_models(out@) =~= result_models(before).push(model));
        assert(all.take(i + 1) =~= all.take(i as int).push(all[i as int]));
        i = i + 1;
    }
    assert(all.take(i as int) =~= all);
    out
}

fn show(result: &CheckResult) -> (r: String)
    ensures
        r@ == result_line(result@),
{
    let mut line = if result.ok {
        "✅".to_string()
    } else {
        "❌".to_string()
    };
    line.append(" ");
    line.append(&result.name);
    line.append(" — ");
    line.append(&result.detail);
    line
}

/// Results as they are shown, one in each line.
pub fn format_results(results: &Vec<CheckResult>) -> (r: String)
    ensures
        r@ == results_text(result_models(results@)),
{
    let ghost all = result_models(results@).map_values(|r: ResultModel| result_line(r));
    let mut lines: Vec<String> = Vec::new();
    let mut i: usize = 0;
    assert(lines.deep_view() =~= all.take(0));
    while i < results.len()
        invariant
            i <= results@.len(),
            all == result_models(results@).map_values(|r: ResultModel| result_line(r)),
            lines.deep_view() == all.take(i as int),
        decreases results@.len() - i,
    {
        let ghost before = lines.deep_view();
        let line = show(&results[i]);
        let ghost text = line@;
        lines.push(line);
        assert(lines.deep_view() =~= before.push(text));
        assert(all.take(i + 1) =~= all.take(i as int).push(all[i as int]));
        i = i + 1;
    }
    assert(all.take(i as int) =~= all);
    join_texts(&lines, "\n")
}

impl HealthSnapshot {
    /// Whether all results are good.
    pub fn all_ok(&self) -> (r: bool)
        ensures
            r == all_good(result_models(self.results@)),
    {
        let ghost all = result_models(self.results@);
        let mut i: usize = 0;
        while i < self.results.len()
            invariant
                i <= self.results@.len(),
                all == result_models(self.results@),
                forall|j: int| 0 <= j < i ==> (#[trigger] all[j]).ok,
            decreases self.results@.len() - i,
        {
            assert(all[i as int] == self.results@[i as int]@);
            if !self.results[i].ok {
                return false;
            }
            i = i + 1;
        }
        true
    }

    /// The number of good results.
    pub fn count_ok(&self) -> (r: usize)
        ensures
            r == good_count(result_models(self.results@)),
            r <= self.results@.len(),
    {
        let ghost all = result_models(self.results@);
        let mut count: usize = 0;
        let mut i: usize = 0;
        while i < self.results.len()
            invariant
                i <= self.results@.len(),
                all == result_models(self.results@),
                count <= i,
                count == good_count(all.take(i as int)),
            decreases self.results@.len() - i,
        {
            assert(all.take(i + 1).drop_last() =~= all.take(i as int));
            assert(all[i as int] == self.results@[i as int]@);
            if self.results[i].ok {
                count = count + 1;
            }
            i = i + 1;
        }
        assert(all.take(i as int) =~= all);
        count
    }

    /// The same results.
    pub fn copy(&self) -> (r: HealthSnapshot)
        ensures
            r.checked_at == self.checked_at,
            result_models(r.results@) == result_models(self.results@),
    {
        let ghost all = result_models(self.results@);
        let mut out: Vec<CheckResult> = Vec::new();
        let mut i: usize = 0;
        assert(result_models(out@) =~= all.take(0));
        while i < self.results.len()
            invariant
                i <= self.results@.len(),
                all == result_models(self.results@),
                result_models(out@) == all.take(i as int),
            decreases self.results@.len() - i,
        {
            let ghost before = out@;
            let result = CheckResult {
                name: self.results[i].name.clone(),
                ok: self.results[i].ok,
                detail: self.results[i].detail.clone(),
            };
            let ghost model = result@;
            out.push(result);
            assert(result_models(out@) =~= result_models(before).push(model));
            assert(all.take(i + 1) =~= all.take(i as int).push(all[i as int]));
            i = i + 1;
        }
        assert(all.take(i as int) =~= all);
        HealthSnapshot { checked_at: self.checked_at, results: out }
    }
}

/// All results are good exactly where as many are good as there are.
pub proof fn all_good_is_all_counted(results: Seq<ResultModel>)
    ensures
        good_count(results) <= results.len(),
        all_good(results) <==> good_count(results) == results.len(),
    decreases results.len(),
{
    if results.len() > 0 {
        let head = results.drop_last();
        all_good_is_all_counted(head);
        if good_count(results) == results.len() {
            assert forall|i: int| 0 <= i < results.len() implies (#[trigger] results[i]).ok by {
                if i < head.len() {
                    assert(head[i].ok);
                }
            }
        }
        if all_good(results) {
            assert forall|i: int| 0 <= i < head.len() implies (#[trigger] head[i]).ok by {
                assert(results[i].ok);
            }
            assert(results[results.len() - 1].ok);
        }
    }
}

/// Each good result counts once.
pub proof fn good_results_are_counted(results: Seq<ResultModel>)
    ensures
        good_count(results) == results.filter(|r: ResultModel| r.ok).len(),
    decreases results.len(),
{
    reveal(Seq::filter);
    if results.len() > 0 {
        good_results_are_counted(results.drop_last());
    }
}

/// A result is good exactly where the probe got an HTTP answer, whatever was probed. It says which
/// status came back, or why there was none, and it has the name of its probe.
pub proof fn answered_probe_is_good(probe: ProbeModel, outcome: Result<u16, String>)
    ensures
        checked(probe, outcome).ok <==> outcome is Ok,
        outcome matches Ok(status) ==> checked(probe, outcome).detail == "HTTP "@ + decimal(
            status as nat,
        ),
        outcome matches Err(reason) ==> checked(probe, outcome).detail == reason@,
        probe matches ProbeModel::Relay(sni) ==> checked(probe, outcome).name == "relay → exit ("@
            + sni + ")"@,
        probe is Url ==> checked(probe, outcome).name == "подписки"@,
{
}

/// All checks of a round are good exactly where every probe got an answer, and each probe has its
/// own result, at its own place.
pub proof fn round_is_good_where_all_answered(
    probes: Seq<ProbeModel>,
    outcomes: Seq<Result<u16, String>>,
)
    requires
        outcomes.len() == probes.len(),
    ensures
        all_good(run_results(probes, outcomes)) <==> forall|i: int|
            0 <= i < outcomes.len() ==> (#[trigger] outcomes[i]) is Ok,
        run_results(probes, outcomes).len() == probes.len(),
        forall|i: int|
            0 <= i < probes.len() ==> (#[trigger] run_results(probes, outcomes)[i]).ok == (
            outcomes[i] is Ok) && run_results(probes, outcomes)[i].name == probes[i].name(),
{
    let results = run_results(probes, outcomes);
    assert forall|i: int| 0 <= i < probes.len() implies (#[trigger] results[i]).ok == (
    outcomes[i] is Ok) && results[i].name == probes[i].name() by {
        answered_probe_is_good(probes[i], outcomes[i]);
    }
    if all_good(results) {
        assert forall|i: int| 0 <= i < outcomes.len() implies (#[trigger] outcomes[i]) is Ok by {
            assert(results[i].ok);
        }
    }
}

/// Every profile is probed through the relay, in the order of the configuration, and then the
/// subscription server, where its address is configured.
pub proof fn everything_configured_is_probed(config: HealthModel)
    ensures
        probes_of(config).len() == config.snis.len() + (if config.subscription_url is Some {
            1int
        } else {
            0
        }),
        forall|i: int|
            0 <= i < config.snis.len() ==> #[trigger] probes_of(config)[i] == ProbeModel::Relay(
                config.snis[i],
            ),
        config.subscription_url matches Some(url) ==> probes_of(config).last() == ProbeModel::Url(
            url,
        ),
{
}

/// A result is shown with a mark that tells good from bad, then its name and its detail; two
/// results that differ in being good are shown differently.
pub proof fn mark_tells_good_from_bad(a: ResultModel, b: ResultModel)
    ensures
        a.ok ==> result_line(a) == "✅ "@ + a.name + " — "@ + a.detail,
        !a.ok ==> result_line(a) == "❌ "@ + a.name + " — "@ + a.detail,
        a.ok != b.ok ==> result_line(a) != result_line(b),
{
    reveal_strlit("✅");
    reveal_strlit("❌");
    reveal_strlit(" ");
    reveal_strlit("✅ ");
    reveal_strlit("❌ ");
    assert("✅"@ + " "@ =~= "✅ "@);
    assert("❌"@ + " "@ =~= "❌ "@);
    assert(result_line(a)[0] == if a.ok {
        "✅"@[0]
    } else {
        "❌"@[0]
    });
    assert(result_line(b)[0] == if b.ok {
        "✅"@[0]
    } else {
        "❌"@[0]
    });
}

/// Every result has its line, in order: one more result adds one more line.
pub proof fn each_result_has_its_line(results: Seq<ResultModel>, last: ResultModel)
    ensures
        results_text(seq![last]) == result_line(last),
        results.len() > 0 ==> results_text(results.push(last)) == results_text(results) + "\n"@
            + result_line(last),
{
    let show = |r: ResultModel| result_line(r);
    assert(seq![last].map_values(show) =~= seq![result_line(last)]);
    assert(results.push(last).map_values(show) =~= results.map_values(show).push(result_line(last)));
    assert(results.map_values(show).push(result_line(last)).drop_last() =~= results.map_values(
        show,
    ));
}

/// What is known of a check: its failures in a row, and whether there was an alert about them.
#[derive(Debug)]
pub struct CheckState {
    pub name: String,
    pub failures: u32,
    pub alerted: bool,
}

/// What is known of a check.
pub struct StateModel {
    pub failures: u32,
    pub alerted: bool,
}

/// What is known of all checks.
#[derive(Debug)]
pub struct Monitor {
    pub threshold: u32,
    pub states: Vec<CheckState>,
}

/// What is known of the check of that name; of a new one, that it has not failed.
pub open spec fn state_of(states: Seq<CheckState>, name: Seq<char>) -> StateModel
    decreases states.len(),
{
    if states.len() == 0 {
        StateModel { failures: 0, alerted: false }
    } else if states[0].name@ == name {
        StateModel { failures: states[0].failures, alerted: states[0].alerted }
    } else {
        state_of(states.drop_first(), name)
    }
}

/// What is known of a check stands in the first entry with its name; a check without one has not
/// failed.
pub proof fn check_is_known_by_its_name(states: Seq<CheckState>, name: Seq<char>, i: int)
    requires
        0 <= i <= states.len(),
        i < states.len() ==> states[i].name@ == name,
        forall|j: int| 0 <= j < i ==> (#[trigger] states[j]).name@ != name,
    ensures
        i < states.len() ==> state_of(states, name).failures == states[i].failures && state_of(
            states,
            name,
        ).alerted == states[i].alerted,
        i == states.len() ==> state_of(states, name).failures == 0 && !state_of(
            states,
            name,
        ).alerted,
    decreases states.len(),
{
    if i > 0 {
        assert(states[0].name@ != name);
        let rest = states.drop_first();
        assert forall|j: int| 0 <= j < i - 1 implies (#[trigger] rest[j]).name@ != name by {
            assert(rest[j] == states[j + 1]);
        }
        check_is_known_by_its_name(rest, name, i - 1);
    }
}

impl StateModel {
    /// What is known after a result.
    pub open spec fn after(self, ok: bool, threshold: u32) -> StateModel {
        if ok {
            StateModel { failures: 0, alerted: false }
        } else {
            StateModel {
                failures: (self.failures + 1) as u32,
                alerted: self.alerted || self.failures + 1 >= threshold,
            }
        }
    }

    /// What the approvers are told of a result, if anything.
    pub open spec fn alert(self, result: ResultModel, threshold: u32) -> Option<Seq<char>> {
        if result.ok {
            if self.alerted {
                Some(recovery_text(result.name))
            } else {
                None
            }
        } else if self.failures + 1 >= threshold && !self.alerted {
            Some(alert_text(result.name, result.detail, (self.failures + 1) as nat))
        } else {
            None
        }
    }
}

/// What is said of a check that works again.
pub open spec fn recovery_text(name: Seq<char>) -> Seq<char> {
    "✅ Снова работает: "@ + name
}

/// What is said of a check that does not work.
pub open spec fn alert_text(name: Seq<char>, detail: Seq<char>, failures: nat) -> Seq<char> {
    "⚠️ Не работает: "@ + name + "\n"@ + detail + "\n\nПроверка "@ + decimal(failures)
        + " раз(а) подряд. Если выходной сервер заблокирован — на relay: exit-switch <новый IP>"@
}

/// What is known of each check by its name.
pub open spec fn states_map(states: Seq<CheckState>) -> Map<Seq<char>, StateModel> {
    Map::new(|name: Seq<char>| true, |name: Seq<char>| state_of(states, name))
}

/// What is known after the results, and what the approvers are told, one result after the other.
pub open spec fn watched(
    known: Map<Seq<char>, StateModel>,
    results: Seq<ResultModel>,
    threshold: u32,
) -> (Map<Seq<char>, StateModel>, Seq<Seq<char>>)
    decreases results.len(),
{
    if results.len() == 0 {
        (known, seq![])
    } else {
        let (before, told) = watched(known, results.drop_last(), threshold);
        let result = results.last();
        let state = before[result.name];
        (
            before.insert(result.name, state.after(result.ok, threshold)),
            match state.alert(result, threshold) {
                Some(text) => told.push(text),
                None => told,
            },
        )
    }
}

/// No check has failed so often that more failures could not be counted.
pub open spec fn countable(known: Map<Seq<char>, StateModel>, more: nat) -> bool {
    forall|name: Seq<char>| (#[trigger] known[name]).failures + more <= u32::MAX
}

/// What is known of one check after its results.
pub open spec fn history(outcomes: Seq<bool>, threshold: u32) -> StateModel
    decreases outcomes.len(),
{
    if outcomes.len() == 0 {
        StateModel { failures: 0, alerted: false }
    } else {
        history(outcomes.drop_last(), threshold).after(outcomes.last(), threshold)
    }
}

/// The failures at the end.
pub open spec fn failures_in_a_row(outcomes: Seq<bool>) -> nat
    decreases outcomes.len(),
{
    if outcomes.len() == 0 || outcomes.last() {
        0
    } else {
        failures_in_a_row(outcomes.drop_last()) + 1
    }
}

/// What is known of a check is the number of its failures in a row, and it has been alerted exactly
/// where they have reached the threshold.
pub proof fn history_counts_failures(outcomes: Seq<bool>, threshold: u32)
    requires
        threshold >= 1,
        outcomes.len() <= u32::MAX,
    ensures
        history(outcomes, threshold).failures == failures_in_a_row(outcomes),
        failures_in_a_row(outcomes) <= outcomes.len(),
        history(outcomes, threshold).alerted <==> failures_in_a_row(outcomes) >= threshold,
    decreases outcomes.len(),
{
    if outcomes.len() > 0 {
        history_counts_failures(outcomes.drop_last(), threshold);
    }
}

/// The approvers are told that a check does not work exactly when its failures in a row reach the
/// threshold, and that it works again exactly with the first success after that.
pub proof fn alerts_come_once(outcomes: Seq<bool>, result: ResultModel, threshold: u32)
    requires
        threshold >= 1,
        outcomes.len() < u32::MAX,
    ensures
        !result.ok ==> (history(outcomes, threshold).alert(result, threshold) is Some
            <==> failures_in_a_row(outcomes) + 1 == threshold),
        result.ok ==> (history(outcomes, threshold).alert(result, threshold) is Some
            <==> failures_in_a_row(outcomes) >= threshold),
{
    history_counts_failures(outcomes, threshold);
}

/// What is told of a check: with a failure, that it does not work, why, and how often it has failed
/// in a row; with a success, that it works again.
pub proof fn alerts_say_what_happened(outcomes: Seq<bool>, result: ResultModel, threshold: u32)
    requires
        threshold >= 1,
        outcomes.len() < u32::MAX,
    ensures
        history(outcomes, threshold).alert(result, threshold) matches Some(text) ==> text
            == if result.ok {
            "✅ Снова работает: "@ + result.name
        } else {
            "⚠️ Не работает: "@ + result.name + "\n"@ + result.detail + "\n\nПроверка "@ + decimal(
                failures_in_a_row(outcomes.push(false)),
            )
                + " раз(а) подряд. Если выходной сервер заблокирован — на relay: exit-switch <новый IP>"@
        },
        failures_in_a_row(outcomes.push(false)) == failures_in_a_row(outcomes) + 1,
        failures_in_a_row(outcomes.push(true)) == 0,
{
    history_counts_failures(outcomes, threshold);
    assert(outcomes.push(false).drop_last() =~= outcomes);
}

/// A result changes what is known of its own check alone.
pub proof fn checks_are_independent(
    known: Map<Seq<char>, StateModel>,
    results: Seq<ResultModel>,
    threshold: u32,
    name: Seq<char>,
)
    requires
        forall|i: int| 0 <= i < results.len() ==> (#[trigger] results[i]).name != name,
    ensures
        watched(known, results, threshold).0[name] == known[name],
    decreases results.len(),
{
    if results.len() > 0 {
        let head = results.drop_last();
        assert forall|i: int| 0 <= i < head.len() implies (#[trigger] head[i]).name != name by {
            assert(results[i].name != name);
        }
        checks_are_independent(known, head, threshold, name);
        assert(results[results.len() - 1].name != name);
    }
}

/// The outcomes of the check of that name, in their order.
pub open spec fn outcomes_of(results: Seq<ResultModel>, name: Seq<char>) -> Seq<bool>
    decreases results.len(),
{
    if results.len() == 0 {
        seq![]
    } else if results.last().name == name {
        outcomes_of(results.drop_last(), name).push(results.last().ok)
    } else {
        outcomes_of(results.drop_last(), name)
    }
}

/// What a monitor that started afresh knows of a check is the history of that check alone,
/// whatever other checks came in between.
pub proof fn each_check_has_its_history(
    results: Seq<ResultModel>,
    threshold: u32,
    name: Seq<char>,
)
    ensures
        watched(states_map(seq![]), results, threshold).0[name] == history(
            outcomes_of(results, name),
            threshold,
        ),
    decreases results.len(),
{
    if results.len() > 0 {
        let head = results.drop_last();
        each_check_has_its_history(head, threshold, name);
        if results.last().name == name {
            let before = outcomes_of(head, name);
            assert(before.push(results.last().ok).drop_last() =~= before);
        }
    }
}

/// Two rounds, one after the other, come to the same as one round of all their results.
pub proof fn rounds_add_up(
    known: Map<Seq<char>, StateModel>,
    first: Seq<ResultModel>,
    second: Seq<ResultModel>,
    threshold: u32,
)
    ensures
        watched(known, first + second, threshold) == (
            watched(watched(known, first, threshold).0, second, threshold).0,
            watched(known, first, threshold).1 + watched(
                watched(known, first, threshold).0,
                second,
                threshold,
            ).1,
        ),
    decreases second.len(),
{
    let (middle, told) = watched(known, first, threshold);
    if second.len() == 0 {
        assert(first + second =~= first);
        assert(told + seq![] =~= told);
    } else {
        rounds_add_up(known, first, second.drop_last(), threshold);
        assert((first + second).drop_last() =~= first + second.drop_last());
        let (before, more) = watched(middle, second.drop_last(), threshold);
        match before[second.last().name].alert(second.last(), threshold) {
            Some(text) => {
                assert((told + more).push(text) =~= told + more.push(text));
            },
            None => {},
        }
    }
}

proof fn state_of_skip(states: Seq<CheckState>, i: int, name: Seq<char>)
    requires
        0 <= i <= states.len(),
        forall|j: int| 0 <= j < i ==> (#[trigger] states[j]).name@ != name,
    ensures
        state_of(states, name) == state_of(states.skip(i), name),
    decreases i,
{
    if i > 0 {
        state_of_skip(states, i - 1, name);
        assert(states.skip(i - 1).drop_first() =~= states.skip(i));
        assert(states[i - 1].name@ != name);
    } else {
        assert(states.skip(0) =~= states);
    }
}

proof fn state_of_update(states: Seq<CheckState>, i: int, state: CheckState, name: Seq<char>)
    requires
        0 <= i < states.len(),
        state.name@ == states[i].name@,
        forall|j: int| 0 <= j < i ==> (#[trigger] states[j]).name@ != states[i].name@,
    ensures
        state_of(states.update(i, state), name) == if name == state.name@ {
            StateModel { failures: state.failures, alerted: state.alerted }
        } else {
            state_of(states, name)
        },
    decreases states.len(),
{
    let new = states.update(i, state);
    if i == 0 {
        assert(new.drop_first() =~= states.drop_first());
    } else {
        let rest = states.drop_first();
        assert(new.drop_first() =~= rest.update(i - 1, state));
        assert forall|j: int| 0 <= j < i - 1 implies (#[trigger] rest[j]).name@ != rest[i
            - 1].name@ by {
            assert(rest[j] == states[j + 1]);
        }
        state_of_update(rest, i - 1, state, name);
        assert(states[0].name@ != states[i].name@);
    }
}

proof fn state_of_push(states: Seq<CheckState>, state: CheckState, name: Seq<char>)
    requires
        forall|j: int| 0 <= j < states.len() ==> (#[trigger] states[j]).name@ != state.name@,
    ensures
        state_of(states.push(state), name) == if name == state.name@ {
            StateModel { failures: state.failures, alerted: state.alerted }
        } else {
            state_of(states, name)
        },
    decreases states.len(),
{
    let new = states.push(state);
    if states.len() > 0 {
        let rest = states.drop_first();
        assert(new.drop_first() =~= rest.push(state));
        assert forall|j: int| 0 <= j < rest.len() implies (#[trigger] rest[j]).name@
            != state.name@ by {
            assert(rest[j] == states[j + 1]);
        }
        state_of_push(rest, state, name);
        assert(states[0].name@ != state.name@);
    } else {
        assert(new.drop_first() =~= states);
    }
}

impl Monitor {
    /// A monitor that has not seen anything.
    pub fn new(threshold: u32) -> (r: Monitor)
        ensures
            r.threshold == threshold,
            states_map(r.states@) == states_map(seq![]),
            countable(states_map(r.states@), u32::MAX as nat),
    {
        let monitor = Monitor { threshold, states: Vec::new() };
        assert(monitor.states@ =~= seq![]);
        monitor
    }

    /// Takes a result in, and says what the approvers are told.
    pub fn observe(&mut self, result: &CheckResult) -> (r: Option<String>)
        requires
            !result.ok ==> state_of(old(self).states@, result.name@).failures < u32::MAX,
        ensures
            final(self).threshold == old(self).threshold,
            states_map(final(self).states@) == states_map(old(self).states@).insert(
                result.name@,
                state_of(old(self).states@, result.name@).after(result.ok, old(self).threshold),
            ),
            r.deep_view() == state_of(old(self).states@, result.name@).alert(
                result@,
                old(self).threshold,
            ),
    {
        let ghost start = self.states@;
        let ghost before = state_of(start, result.name@);
        let mut i: usize = 0;
        while i < self.states.len() && !text_eq(&self.states[i].name, &result.name)
            invariant
                i <= self.states@.len(),
                self.states@ == start,
                forall|j: int| 0 <= j < i ==> (#[trigger] self.states@[j]).name@ != result.name@,
            decreases self.states@.len() - i,
        {
            i = i + 1;
        }
        proof {
            state_of_skip(start, i as int, result.name@);
        }
        let known = i < self.states.len();
        let (failures, alerted): (u32, bool) = if known {
            (self.states[i].failures, self.states[i].alerted)
        } else {
            (0, false)
        };
        assert(failures == before.failures && alerted == before.alerted);
        let mut state = CheckState { name: result.name.clone(), failures: 0, alerted: false };
        let mut told: Option<String> = None;
        if result.ok {
            if alerted {
                let mut text = "✅ Снова работает: ".to_string();
                text.append(&result.name);
                told = Some(text);
            }
        } else {
            state.failures = failures + 1;
            state.alerted = alerted;
            if state.failures >= self.threshold && !alerted {
                state.alerted = true;
                let mut text = "⚠️ Не работает: ".to_string();
                text.append(&result.name);
                text.append("\n");
                text.append(&result.detail);
                text.append("\n\nПроверка ");
                append_u64(&mut text, state.failures as u64);
                text.append(
                    " раз(а) подряд. Если выходной сервер заблокирован — на relay: exit-switch <новый IP>",
                );
                told = Some(text);
            }
        }
        let ghost new = state;
        if known {
            self.states.set(i, state);
        } else {
            self.states.push(state);
        }
        proof {
            assert forall|name: Seq<char>| #[trigger] state_of(self.states@, name) == if name
                == result.name@ {
                before.after(result.ok, self.threshold)
            } else {
                state_of(start, name)
            } by {
                if known {
                    state_of_update(start, i as int, new, name);
                } else {
                    state_of_push(start, new, name);
                }
            }
            assert(states_map(self.states@) =~= states_map(start).insert(
                result.name@,
                before.after(result.ok, self.threshold),
            ));
        }
        told
    }

    /// Takes the results of a round in, and says what the approvers are told.
    pub fn round(&mut self, results: &Vec<CheckResult>) -> (r: Vec<String>)
        requires
            countable(states_map(old(self).states@), results@.len()),
        ensures
            final(self).threshold == old(self).threshold,
            (states_map(final(self).states@), r.deep_view()) == watched(
                states_map(old(self).states@),
                result_models(results@),
                old(self).threshold,
            ),
    {
        let ghost start = states_map(self.states@);
        let ghost all = result_models(results@);
        let ghost threshold = self.threshold;
        let mut told: Vec<String> = Vec::new();
        assert(told.deep_view() =~= seq![]);
        let mut i: usize = 0;
        while i < results.len()
            invariant
                i <= results@.len(),
                all == result_models(results@),
                self.threshold == threshold,
                (states_map(self.states@), told.deep_view()) == watched(
                    start,
                    all.take(i as int),
                    threshold,
                ),
                countable(states_map(self.states@), (results@.len() - i) as nat),
            decreases results@.len() - i,
        {
            let ghost before = told.deep_view();
            let ghost known = states_map(self.states@);
            let ghost result = results@[i as int]@;
            assert(all[i as int] == result);
            assert(all.take(i + 1).drop_last() =~= all.take(i as int));
            assert(known[result.name].failures + (results@.len() - i) <= u32::MAX);
            assert(state_of(self.states@, result.name) == known[result.name]);
            let text = self.observe(&results[i]);
            if let Some(text) = text {
                let ghost model = text@;
                told.push(text);
                assert(told.deep_view() =~= before.push(model));
            }
            proof {
                let after = states_map(self.states@);
                assert forall|name: Seq<char>| (#[trigger] after[name]).failures + (results@.len()
                    - (i + 1)) <= u32::MAX by {
                    assert(known[name].failures + (results@.len() - i) <= u32::MAX);
                }
            }
            i = i + 1;
        }
        assert(all.take(i as int) =~= all);
        told
    }
}

} // verus!
