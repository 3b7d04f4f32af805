//! System-anomaly analysis: the reply of a local inference engine is read
//! where there is one; otherwise a deterministic scorer answers.

use crate::decimal::{one_place_text, Decimal};
use crate::events::clone_strings;
use crate::text::{
    append_chars, chars_of, decimal, has_prefix, join, joined, lines, lines_of, lowercase, occurs,
    list2, list3, pieces, push_decimal, push_str, remove_all, split_on, starts_with, str_contains, string_of,
    texts, trim, trimmed, views, without,
};
use vstd::prelude::*;
use vstd::string::StringExecFns;

verus! {

/// The state of a system at the moment an anomaly is analysed.
#[derive(Debug, PartialEq, Eq)]
pub struct AnomalyContext {
    pub logs: Vec<String>,
    pub cpu_usage: Decimal,
    pub memory_usage: Decimal,
    pub error_count: u32,
    pub health_status: String,
    pub agent_id: String,
}

/// What an anomaly context holds.
pub struct AnomalyContextView {
    pub logs: Seq<Seq<char>>,
    pub cpu_usage: int,
    pub memory_usage: int,
    pub error_count: nat,
    pub health_status: Seq<char>,
    pub agent_id: Seq<char>,
}

impl View for AnomalyContext {
    type V = AnomalyContextView;

    open spec fn view(&self) -> AnomalyContextView {
        AnomalyContextView {
            logs: views(self.logs@),
            cpu_usage: self.cpu_usage.milli as int,
            memory_usage: self.memory_usage.milli as int,
            error_count: self.error_count as nat,
            health_status: self.health_status@,
            agent_id: self.agent_id@,
        }
    }
}

/// The analysis of an anomaly.
#[derive(Debug, PartialEq, Eq)]
pub struct AIInsight {
    pub analysis: String,
    pub severity: String,
    pub root_cause: String,
    pub suggested_fixes: Vec<String>,
    pub confidence: Decimal,
}

/// What an analysis holds.
pub struct AIInsightView {
    pub analysis: Seq<char>,
    pub severity: Seq<char>,
    pub root_cause: Seq<char>,
    pub suggested_fixes: Seq<Seq<char>>,
    pub confidence: int,
}

impl View for AIInsight {
    type V = AIInsightView;

    open spec fn view(&self) -> AIInsightView {
        AIInsightView {
            analysis: self.analysis@,
            severity: self.severity@,
            root_cause: self.root_cause@,
            suggested_fixes: views(self.suggested_fixes@),
            confidence: self.confidence.milli as int,
        }
    }
}

impl Clone for AIInsight {
    fn clone(&self) -> (r: Self)
        ensures
            r@ == self@,
    {
        AIInsight {
            analysis: self.analysis.clone(),
            severity: self.severity.clone(),
            root_cause: self.root_cause.clone(),
            suggested_fixes: clone_strings(&self.suggested_fixes),
            confidence: self.confidence,
        }
    }
}

/// Which of the two backends gave an analysis.
#[derive(Clone, Copy, Debug, PartialEq, Eq, Structural)]
pub enum Backend {
    /// The inference engine.
    Precise,
    /// The deterministic scorer.
    Heuristic,
}

/// Some text of `logs` holds `pat`.
pub open spec fn any_holds(logs: Seq<Seq<char>>, pat: Seq<char>) -> bool {
    exists|i: int| 0 <= i < logs.len() && occurs(#[trigger] logs[i], pat)
}

/// One for a condition that holds, zero for one that does not.
pub open spec fn one_if(b: bool) -> nat {
    if b {
        1
    } else {
        0
    }
}

/// The number of alarming conditions that hold of a context: CPU above 90,
/// memory above 85, more than 15 errors, a health status other than
/// `healthy`, and a log that holds `FATAL` or `OutOfMemory`.
pub open spec fn critical_score(c: AnomalyContextView) -> nat {
    one_if(c.cpu_usage > 90_000) + one_if(c.memory_usage > 85_000) + one_if(c.error_count > 15)
        + one_if(c.health_status != "healthy"@) + one_if(
        any_holds(c.logs, "FATAL"@) || any_holds(c.logs, "OutOfMemory"@),
    )
}

/// The logs whose lowercase form holds `error`, in their order. `lowered`
/// holds the lowercase form of each log; a log without one is left out.
pub open spec fn error_logs(logs: Seq<Seq<char>>, lowered: Seq<Seq<char>>) -> Seq<Seq<char>>
    decreases logs.len(),
{
    if logs.len() == 0 {
        Seq::empty()
    } else {
        let rest = error_logs(logs.drop_last(), lowered);
        if logs.len() <= lowered.len() && occurs(lowered[logs.len() - 1], "error"@) {
            rest.push(logs.last())
        } else {
            rest
        }
    }
}

/// The names of the keyword categories found among the error logs.
pub open spec fn categories(errors: Seq<Seq<char>>) -> Seq<Seq<char>> {
    (if any_holds(errors, "connection"@) {
        seq!["Connection issues"@]
    } else {
        Seq::<Seq<char>>::empty()
    }) + (if any_holds(errors, "memory"@) {
        seq!["Memory problems"@]
    } else {
        Seq::<Seq<char>>::empty()
    })
}

/// The summary of the keyword categories of the error logs: empty unless
/// more than three logs are error logs and a category is found among them.
pub open spec fn pattern_summary(logs: Seq<Seq<char>>, lowered: Seq<Seq<char>>) -> Seq<char> {
    let errors = error_logs(logs, lowered);
    if errors.len() > 3 && categories(errors).len() > 0 {
        "Patterns: "@ + joined(categories(errors), ", "@)
    } else {
        Seq::empty()
    }
}

/// The lowercase form of each text.
pub open spec fn lowercase_each(logs: Seq<Seq<char>>) -> Seq<Seq<char>> {
    logs.map_values(|l: Seq<char>| lowercase(l))
}

/// The raw metrics of a context, as the analysis text of the deterministic
/// scorer embeds them: the CPU and the memory figure with one decimal place,
/// and the number of errors.
pub open spec fn metrics_text(c: AnomalyContextView) -> Seq<char> {
    "CPU "@ + one_place_text(c.cpu_usage) + "%, Memory "@ + one_place_text(c.memory_usage)
        + "%, "@ + decimal(c.error_count) + " errors"@
}

/// The analysis text of the deterministic scorer for the score `score`: for
/// every score it names the agent, embeds the raw metrics, and ends with the
/// summary of the keyword categories.
pub open spec fn fallback_analysis(c: AnomalyContextView, score: nat, summary: Seq<char>) -> Seq<
    char,
> {
    if 4 <= score <= 5 {
        " CRITICAL: Agent "@ + c.agent_id + " cascading failures - "@ + metrics_text(c) + ". "@
            + summary
    } else if 2 <= score <= 3 {
        "HIGH RISK: Agent "@ + c.agent_id + " significant stress - "@ + metrics_text(c)
            + " - performance degradation imminent. "@ + summary
    } else {
        "Agent "@ + c.agent_id + " stable with minor anomalies - "@ + metrics_text(c) + ". "@ + (
        if summary.len() == 0 {
            "No issues detected."@
        } else {
            summary
        })
    }
}

/// What the deterministic scorer answers for a context with the score
/// `score` and the pattern summary `summary`: a score of 4 or 5 is
/// `CRITICAL` with confidence 0.98, one of 2 or 3 is `HIGH` with 0.89, any
/// other is `LOW` with 0.75.
pub open spec fn fallback_insight(c: AnomalyContextView, score: nat, summary: Seq<char>)
    -> AIInsightView {
    if 4 <= score <= 5 {
        AIInsightView {
            analysis: fallback_analysis(c, score, summary),
            severity: "CRITICAL"@,
            root_cause: "Complete system resource exhaustion with cascading failures"@,
            suggested_fixes: seq![
                " IMMEDIATE: Emergency restart required"@,
                " IMMEDIATE: Kill runaway processes"@,
                " URGENT: Implement auto-scaling"@,
            ],
            confidence: 980,
        }
    } else if 2 <= score <= 3 {
        AIInsightView {
            analysis: fallback_analysis(c, score, summary),
            severity: "HIGH"@,
            root_cause: "High resource utilization causing application instability"@,
            suggested_fixes: seq![
                "PRIORITY: Scale resources immediately"@,
                "NVESTIGATE: Database performance"@,
                "IMPLEMENT: Circuit breakers"@,
            ],
            confidence: 890,
        }
    } else {
        AIInsightView {
            analysis: fallback_analysis(c, score, summary),
            severity: "LOW"@,
            root_cause: "Normal operational variations"@,
            suggested_fixes: seq!["ROUTINE: Continue monitoring"@, "REVIEW: Recent changes"@],
            confidence: 750,
        }
    }
}

/// What the deterministic scorer answers for a context.
pub open spec fn heuristic_insight(c: AnomalyContextView) -> AIInsightView {
    fallback_insight(c, critical_score(c), pattern_summary(c.logs, lowercase_each(c.logs)))
}

/// The score of a context decides the severity and the confidence of the
/// deterministic scorer: a context of which all five conditions hold, or
/// four, is `CRITICAL` with confidence 0.98; one with two or three is `HIGH`
/// with 0.89; one of which none holds, or one, is `LOW` with 0.75.
pub proof fn law_score_decides_severity(c: AnomalyContextView)
    ensures
        critical_score(c) >= 4 ==> heuristic_insight(c).severity == "CRITICAL"@
            && heuristic_insight(c).confidence == 980,
        2 <= critical_score(c) <= 3 ==> heuristic_insight(c).severity == "HIGH"@
            && heuristic_insight(c).confidence == 890,
        critical_score(c) <= 1 ==> heuristic_insight(c).severity == "LOW"@ && heuristic_insight(
            c,
        ).confidence == 750,
{
}

/// Whether some string of `logs` holds `pat`.
pub fn any_log_holds(logs: &Vec<String>, pat: &str) -> (r: bool)
    ensures
        r == any_holds(views(logs@), pat@),
{
    let mut i: usize = 0;
    while i < logs.len()
        invariant
            i <= logs.len(),
            forall|k: int| 0 <= k < i ==> !occurs(#[trigger] views(logs@)[k], pat@),
        decreases logs.len() - i,
    {
        if str_contains(logs[i].as_str(), pat) {
            assert(occurs(views(logs@)[i as int], pat@));
            return true;
        }
        i += 1;
    }
    false
}

/// The summary of the keyword categories of the error logs of `logs`, where
/// `lowered` holds the lowercase form of each log.
pub fn summarize_patterns(logs: &Vec<String>, lowered: &Vec<String>) -> (r: String)
    ensures
        r@ == pattern_summary(views(logs@), views(lowered@)),
{
    let mut errors: Vec<String> = Vec::new();
    let mut i: usize = 0;
    let ghost all = views(logs@);
    let ghost low = views(lowered@);
    proof {
        assert(all.take(0) =~= Seq::<Seq<char>>::empty());
    }
    while i < logs.len()
        invariant
            i <= logs.len(),
            all == views(logs@),
            low == views(lowered@),
            views(errors@) == error_logs(all.take(i as int), low),
        decreases logs.len() - i,
    {
        proof {
            assert(all.take(i + 1).drop_last() =~= all.take(i as int));
            assert(all.take(i + 1).last() == logs@[i as int]@);
        }
        let ghost before = errors@;
        if i < lowered.len() && str_contains(lowered[i].as_str(), "error") {
            errors.push(logs[i].clone());
            proof {
                assert(views(errors@) =~= views(before).push(logs@[i as int]@));
            }
        }
        i += 1;
    }
    proof {
        assert(all.take(logs.len() as int) =~= all);
    }
    if errors.len() > 3 {
        let mut names: Vec<Vec<char>> = Vec::new();
        if any_log_holds(&errors, "connection") {
            names.push(chars_of("Connection issues"));
        }
        if any_log_holds(&errors, "memory") {
            names.push(chars_of("Memory problems"));
        }
        proof {
            assert(texts(names@) =~= categories(views(errors@)));
        }
        if names.len() > 0 {
            let sep = chars_of(", ");
            let list = join(&names, &sep);
            let mut out: Vec<char> = chars_of("Patterns: ");
            append_chars(&mut out, &list);
            string_of(&out)
        } else {
            String::new()
        }
    } else {
        String::new()
    }
}

/// The lowercase form of each string of `logs`.
pub fn lowercase_all(logs: &Vec<String>) -> (r: Vec<String>)
    ensures
        views(r@) == lowercase_each(views(logs@)),
{
    let mut r: Vec<String> = Vec::new();
    let mut i: usize = 0;
    while i < logs.len()
        invariant
            i <= logs.len(),
            r@.len() == i,
            forall|k: int| 0 <= k < i ==> (#[trigger] r@[k])@ == lowercase(logs@[k]@),
        decreases logs.len() - i,
    {
        r.push(logs[i].as_str().to_lowercase());
        i += 1;
    }
    proof {
        assert(views(r@) =~= lowercase_each(views(logs@)));
    }
    r
}

impl AnomalyContext {
    /// The number of alarming conditions that hold of this context.
    pub fn critical_score(&self) -> (score: u32)
        ensures
            score as nat == critical_score(self@),
            score <= 5,
    {
        let mut score: u32 = 0;
        if self.cpu_usage.gt_whole(90) {
            score += 1;
        }
        if self.memory_usage.gt_whole(85) {
            score += 1;
        }
        if self.error_count > 15 {
            score += 1;
        }
        if !crate::text::same_text(self.health_status.as_str(), "healthy") {
            score += 1;
        }
        let fatal = any_log_holds(&self.logs, "FATAL");
        let oom = any_log_holds(&self.logs, "OutOfMemory");
        if fatal || oom {
            score += 1;
        }
        score
    }
}

/// Appends the raw metrics of `context` to `out`.
pub fn push_metrics(out: &mut Vec<char>, context: &AnomalyContext)
    ensures
        final(out)@ == old(out)@ + metrics_text(context@),
{
    let mut text: Vec<char> = Vec::new();
    push_str(&mut text, "CPU ");
    context.cpu_usage.push_one_place(&mut text);
    push_str(&mut text, "%, Memory ");
    context.memory_usage.push_one_place(&mut text);
    push_str(&mut text, "%, ");
    push_decimal(&mut text, context.error_count as u128);
    push_str(&mut text, " errors");
    append_chars(out, &text);
}

/// What the deterministic scorer answers for `context` with the score `score`
/// and the pattern summary `summary`.
pub fn fallback_for(context: &AnomalyContext, score: u32, summary: &str) -> (r: AIInsight)
    ensures
        r@ == fallback_insight(context@, score as nat, summary@),
{
    let mut out: Vec<char> = Vec::new();
    if 4 <= score && score <= 5 {
        push_str(&mut out, " CRITICAL: Agent ");
        push_str(&mut out, context.agent_id.as_str());
        push_str(&mut out, " cascading failures - ");
        push_metrics(&mut out, context);
        push_str(&mut out, ". ");
        push_str(&mut out, summary);
        AIInsight {
            analysis: string_of(&out),
            severity: String::from_str("CRITICAL"),
            root_cause: String::from_str(
                "Complete system resource exhaustion with cascading failures",
            ),
            suggested_fixes: list3(
                " IMMEDIATE: Emergency restart required",
                " IMMEDIATE: Kill runaway processes",
                " URGENT: Implement auto-scaling",
            ),
            confidence: Decimal::from_milli(980),
        }
    } else if 2 <= score && score <= 3 {
        push_str(&mut out, "HIGH RISK: Agent ");
        push_str(&mut out, context.agent_id.as_str());
        push_str(&mut out, " significant stress - ");
        push_metrics(&mut out, context);
        push_str(&mut out, " - performance degradation imminent. ");
        push_str(&mut out, summary);
        AIInsight {
            analysis: string_of(&out),
            severity: String::from_str("HIGH"),
            root_cause: String::from_str(
                "High resource utilization causing application instability",
            ),
            suggested_fixes: list3(
                "PRIORITY: Scale resources immediately",
                "NVESTIGATE: Database performance",
                "IMPLEMENT: Circuit breakers",
            ),
            confidence: Decimal::from_milli(890),
        }
    } else {
        push_str(&mut out, "Agent ");
        push_str(&mut out, context.agent_id.as_str());
        push_str(&mut out, " stable with minor anomalies - ");
        push_metrics(&mut out, context);
        push_str(&mut out, ". ");
        if summary.unicode_len() == 0 {
            push_str(&mut out, "No issues detected.");
        } else {
            push_str(&mut out, summary);
        }
        AIInsight {
            analysis: string_of(&out),
            severity: String::from_str("LOW"),
            root_cause: String::from_str("Normal operational variations"),
            suggested_fixes: list2("ROUTINE: Continue monitoring", "REVIEW: Recent changes"),
            confidence: Decimal::from_milli(750),
        }
    }
}

/// The fields that a reply of the inference engine gives.
pub struct ReplyFields {
    pub severity: Seq<char>,
    pub analysis: Seq<char>,
    pub root_cause: Seq<char>,
    pub fixes: Seq<Seq<char>>,
    pub confidence: int,
}

/// The fields before any line of a reply was read: severity `LOW`,
/// confidence 0.8, the rest empty.
pub open spec fn initial_fields() -> ReplyFields {
    ReplyFields {
        severity: "LOW"@,
        analysis: Seq::empty(),
        root_cause: Seq::empty(),
        fixes: Seq::empty(),
        confidence: 800,
    }
}

/// What stands in `line` beside the field prefix `prefix`, trimmed.
pub open spec fn field_text(line: Seq<char>, prefix: Seq<char>) -> Seq<char> {
    trimmed(without(line, prefix))
}

/// The items of a list whose items are parted by ` | `, each trimmed.
pub open spec fn pipe_items(list: Seq<char>) -> Seq<Seq<char>> {
    pieces(list, " | "@).map_values(|p: Seq<char>| trimmed(p))
}

/// The confidence that a text states, in thousandths: the text is a numeral
/// of a number from 0 to 1. `None` for any other text.
pub open spec fn stated_confidence(text: Seq<char>) -> Option<int> {
    match crate::decimal::parsed(text) {
        Some(m) => if 0 <= m <= 1000 {
            Some(m)
        } else {
            None
        },
        None => None,
    }
}

/// The fields after one more line was read. A line is trimmed, and counts
/// when it begins with one of the five field prefixes; a confidence that is
/// no numeral, or no number from 0 to 1, leaves the field as it was.
pub open spec fn read_line(f: ReplyFields, raw: Seq<char>) -> ReplyFields {
    let line = trimmed(raw);
    if has_prefix(line, "SEVERITY:"@) {
        ReplyFields { severity: field_text(line, "SEVERITY:"@), ..f }
    } else if has_prefix(line, "ANALYSIS:"@) {
        ReplyFields { analysis: field_text(line, "ANALYSIS:"@), ..f }
    } else if has_prefix(line, "ROOT_CAUSE:"@) {
        ReplyFields { root_cause: field_text(line, "ROOT_CAUSE:"@), ..f }
    } else if has_prefix(line, "FIXES:"@) {
        ReplyFields { fixes: pipe_items(field_text(line, "FIXES:"@)), ..f }
    } else if has_prefix(line, "CONFIDENCE:"@) {
        match stated_confidence(field_text(line, "CONFIDENCE:"@)) {
            Some(m) => ReplyFields { confidence: m, ..f },
            None => f,
        }
    } else {
        f
    }
}

/// The fields after the lines `lines` were read in their order; a later line
/// overrides an earlier one for the same field.
pub open spec fn read_lines(lines: Seq<Seq<char>>) -> ReplyFields
    decreases lines.len(),
{
    if lines.len() == 0 {
        initial_fields()
    } else {
        read_line(read_lines(lines.drop_last()), lines.last())
    }
}

/// Whatever lines are read, the confidence stays a number from 0 to 1.
pub proof fn lemma_reply_confidence(lines: Seq<Seq<char>>)
    ensures
        0 <= read_lines(lines).confidence <= 1000,
    decreases lines.len(),
{
    if lines.len() > 0 {
        lemma_reply_confidence(lines.drop_last());
    }
}

/// The fields that the reply `response` gives.
pub open spec fn reply_fields(response: Seq<char>) -> ReplyFields {
    read_lines(lines_of(response))
}

/// The analysis that the fields of a reply make.
pub open spec fn precise_insight(f: ReplyFields) -> AIInsightView {
    AIInsightView {
        analysis: "GGUF Model: "@ + f.analysis,
        severity: f.severity,
        root_cause: f.root_cause,
        suggested_fixes: f.fixes,
        confidence: f.confidence,
    }
}

/// The analysis that the reply `response` gives for the context `c`: that of
/// its fields, or the deterministic scorer's where the reply holds no
/// analysis text.
pub open spec fn parsed_insight(response: Seq<char>, c: AnomalyContextView) -> AIInsightView {
    let f = reply_fields(response);
    if f.analysis.len() == 0 {
        heuristic_insight(c)
    } else {
        precise_insight(f)
    }
}

/// Which backend answers: the inference engine where a model is configured,
/// it replied and the reply holds an analysis text; else the scorer.
pub open spec fn answering_backend(configured: bool, reply: Option<Seq<char>>) -> Backend {
    match reply {
        Some(response) => if configured && reply_fields(response).analysis.len() > 0 {
            Backend::Precise
        } else {
            Backend::Heuristic
        },
        None => Backend::Heuristic,
    }
}

/// The analysis of the context `c`, given the reply of the inference engine
/// where there is one.
pub open spec fn analysed(configured: bool, reply: Option<Seq<char>>, c: AnomalyContextView)
    -> AIInsightView {
    match reply {
        Some(response) => if configured {
            parsed_insight(response, c)
        } else {
            heuristic_insight(c)
        },
        None => heuristic_insight(c),
    }
}

/// The confidence of an analysis is a number from 0 to 1, whichever backend
/// answers and whatever the inference engine replied.
pub proof fn law_confidence_is_between_zero_and_one(
    configured: bool,
    reply: Option<Seq<char>>,
    c: AnomalyContextView,
)
    ensures
        0 <= analysed(configured, reply, c).confidence <= 1000,
{
    match reply {
        Some(response) => {
            lemma_reply_confidence(lines_of(response));
        },
        None => {},
    }
}

/// The prompt that describes the context `c` to the inference engine.
pub open spec fn prompt_text(c: AnomalyContextView) -> Seq<char> {
    "System Monitor AI Analysis:\n\nApplication: "@ + c.agent_id + "\nCPU: "@ + one_place_text(
        c.cpu_usage,
    ) + "%\nMemory: "@ + one_place_text(c.memory_usage) + "%\nErrors: "@ + decimal(c.error_count)
        + "\nHealth: "@ + c.health_status + "\nLogs: "@ + joined(c.logs, "; "@) + PROMPT_TAIL@
}

/// The end of the prompt: the shape that the reply is asked to have.
pub const PROMPT_TAIL: &'static str =
    "\n\nAnalyze this system state and provide structured response:\nSEVERITY: [LOW/HIGH/CRITICAL]\nANALYSIS: [brief technical analysis]\nROOT_CAUSE: [primary issue identified]\nFIXES: [fix1] | [fix2] | [fix3]\nCONFIDENCE: [0.0-1.0]\n\nResponse:";

/// The name of the inference engine's executable on the search path.
pub const ENGINE_BINARY: &'static str = "llama-cli";

/// The path of the inference engine's executable in a local build.
pub const LOCAL_ENGINE_BINARY: &'static str = "./llama.cpp/llama-cli";

/// The directory that is searched for a model file.
pub const MODEL_DIR: &'static str = "src/model/";

/// The path names a file with the extension `gguf`: it ends in `.gguf`, and
/// more than the dot stands before the extension in the file's name.
pub open spec fn is_model_file(path: Seq<char>) -> bool {
    &&& path.len() > 5
    &&& path.subrange(path.len() - 5, path.len() as int) == ".gguf"@
    &&& path[path.len() - 6] != '/'
}

/// The index of the first model file among `paths`, from index `from` on.
pub open spec fn first_model(paths: Seq<Seq<char>>, from: int) -> Option<int>
    decreases paths.len() - from,
{
    if from < 0 || from >= paths.len() {
        None
    } else if is_model_file(paths[from]) {
        Some(from)
    } else {
        first_model(paths, from + 1)
    }
}

/// The fields of a reply, as they are read.
pub struct ParsedReply {
    pub severity: String,
    pub analysis: String,
    pub root_cause: String,
    pub fixes: Vec<String>,
    pub confidence: Decimal,
}

impl View for ParsedReply {
    type V = ReplyFields;

    open spec fn view(&self) -> ReplyFields {
        ReplyFields {
            severity: self.severity@,
            analysis: self.analysis@,
            root_cause: self.root_cause@,
            fixes: views(self.fixes@),
            confidence: self.confidence.milli as int,
        }
    }
}

/// Whether `path` names a file with the extension `gguf`.
pub fn has_model_extension(path: &str) -> (r: bool)
    ensures
        r == is_model_file(path@),
{
    let p = chars_of(path);
    let ext = chars_of(".gguf");
    proof {
        reveal_strlit(".gguf");
    }
    let n: usize = p.len();
    if n <= 5 {
        return false;
    }
    crate::text::matches_at(&p, &ext, n - 5) && p[n - 6] != '/'
}

/// Each text of `parts`, trimmed, as a string.
fn trimmed_strings(parts: &Vec<Vec<char>>) -> (r: Vec<String>)
    ensures
        views(r@) == texts(parts@).map_values(|p: Seq<char>| trimmed(p)),
{
    let mut r: Vec<String> = Vec::new();
    let mut i: usize = 0;
    while i < parts.len()
        invariant
            i <= parts.len(),
            r@.len() == i,
            forall|k: int| 0 <= k < i ==> (#[trigger] r@[k])@ == trimmed(parts@[k]@),
        decreases parts.len() - i,
    {
        let t = trim(&parts[i]);
        r.push(string_of(&t));
        i += 1;
    }
    proof {
        assert(views(r@) =~= texts(parts@).map_values(|p: Seq<char>| trimmed(p)));
    }
    r
}

/// The fields that the reply `response` gives.
pub fn read_reply(response: &str) -> (r: ParsedReply)
    ensures
        r@ == reply_fields(response@),
{
    let text = chars_of(response);
    let all = lines(&text);
    let k_severity = chars_of("SEVERITY:");
    let k_analysis = chars_of("ANALYSIS:");
    let k_root = chars_of("ROOT_CAUSE:");
    let k_fixes = chars_of("FIXES:");
    let k_confidence = chars_of("CONFIDENCE:");
    let bar = chars_of(" | ");
    let mut reply = ParsedReply {
        severity: String::from_str("LOW"),
        analysis: String::new(),
        root_cause: String::new(),
        fixes: Vec::new(),
        confidence: Decimal::from_milli(800),
    };
    let ghost read = texts(all@);
    let mut i: usize = 0;
    proof {
        assert(read.take(0) =~= Seq::<Seq<char>>::empty());
        assert(views(reply.fixes@) =~= Seq::<Seq<char>>::empty());
    }
    while i < all.len()
        invariant
            i <= all.len(),
            read == texts(all@),
            k_severity@ == "SEVERITY:"@,
            k_analysis@ == "ANALYSIS:"@,
            k_root@ == "ROOT_CAUSE:"@,
            k_fixes@ == "FIXES:"@,
            k_confidence@ == "CONFIDENCE:"@,
            bar@ == " | "@,
            reply@ == read_lines(read.take(i as int)),
        decreases all.len() - i,
    {
        proof {
            assert(read.take(i + 1).drop_last() =~= read.take(i as int));
            assert(read.take(i + 1).last() == all@[i as int]@);
        }
        let line = trim(&all[i]);
        if starts_with(&line, &k_severity) {
            let t = trim(&remove_all(&line, &k_severity));
            reply.severity = string_of(&t);
        } else if starts_with(&line, &k_analysis) {
            let t = trim(&remove_all(&line, &k_analysis));
            reply.analysis = string_of(&t);
        } else if starts_with(&line, &k_root) {
            let t = trim(&remove_all(&line, &k_root));
            reply.root_cause = string_of(&t);
        } else if starts_with(&line, &k_fixes) {
            let t = trim(&remove_all(&line, &k_fixes));
            let parts = split_on(&t, &bar);
            reply.fixes = trimmed_strings(&parts);
        } else if starts_with(&line, &k_confidence) {
            let t = trim(&remove_all(&line, &k_confidence));
            match Decimal::parse(&t) {
                Some(d) => {
                    if 0 <= d.milli && d.milli <= 1000 {
                        reply.confidence = d;
                    }
                },
                None => {},
            }
        }
        i += 1;
    }
    proof {
        assert(read.take(all.len() as int) =~= read);
    }
    reply
}

/// The prompt that describes `context` to the inference engine.
pub fn build_analysis_prompt(context: &AnomalyContext) -> (r: String)
    ensures
        r@ == prompt_text(context@),
{
    let mut out: Vec<char> = Vec::new();
    push_str(&mut out, "System Monitor AI Analysis:\n\nApplication: ");
    push_str(&mut out, context.agent_id.as_str());
    push_str(&mut out, "\nCPU: ");
    context.cpu_usage.push_one_place(&mut out);
    push_str(&mut out, "%\nMemory: ");
    context.memory_usage.push_one_place(&mut out);
    push_str(&mut out, "%\nErrors: ");
    push_decimal(&mut out, context.error_count as u128);
    push_str(&mut out, "\nHealth: ");
    push_str(&mut out, context.health_status.as_str());
    push_str(&mut out, "\nLogs: ");
    let mut logs: Vec<Vec<char>> = Vec::new();
    let mut i: usize = 0;
    while i < context.logs.len()
        invariant
            i <= context.logs.len(),
            logs@.len() == i,
            forall|k: int| 0 <= k < i ==> (#[trigger] logs@[k])@ == context.logs@[k]@,
        decreases context.logs.len() - i,
    {
        logs.push(chars_of(context.logs[i].as_str()));
        i += 1;
    }
    proof {
        assert(texts(logs@) =~= views(context.logs@));
    }
    let sep = chars_of("; ");
    let list = join(&logs, &sep);
    append_chars(&mut out, &list);
    push_str(&mut out, PROMPT_TAIL);
    string_of(&out)
}

/// What is handed to the inference engine for one analysis.
#[derive(Debug, PartialEq, Eq)]
pub struct InferenceRequest {
    pub model_path: String,
    pub prompt: String,
}

impl InferenceRequest {
    /// The arguments for the engine on the search path: the model, the prompt,
    /// 150 tokens at most, temperature 0.7 and top-p 0.9.
    pub fn primary_arguments(&self) -> (r: Vec<String>)
        ensures
            views(r@) == seq![
                "-m"@,
                self.model_path@,
                "-p"@,
                self.prompt@,
                "-n"@,
                "150"@,
                "--temp"@,
                "0.7"@,
                "--top-p"@,
                "0.9"@,
            ],
    {
        let mut r: Vec<String> = Vec::new();
        r.push(String::from_str("-m"));
        r.push(self.model_path.clone());
        r.push(String::from_str("-p"));
        r.push(self.prompt.clone());
        r.push(String::from_str("-n"));
        r.push(String::from_str("150"));
        r.push(String::from_str("--temp"));
        r.push(String::from_str("0.7"));
        r.push(String::from_str("--top-p"));
        r.push(String::from_str("0.9"));
        proof {
            assert(views(r@) =~= seq![
                "-m"@,
                self.model_path@,
                "-p"@,
                self.prompt@,
                "-n"@,
                "150"@,
                "--temp"@,
                "0.7"@,
                "--top-p"@,
                "0.9"@,
            ]);
        }
        r
    }

    /// The arguments for the engine of a local build: the model, the prompt
    /// and 150 tokens at most.
    pub fn local_arguments(&self) -> (r: Vec<String>)
        ensures
            views(r@) == seq!["-m"@, self.model_path@, "-p"@, self.prompt@, "-n"@, "150"@],
    {
        let mut r: Vec<String> = Vec::new();
        r.push(String::from_str("-m"));
        r.push(self.model_path.clone());
        r.push(String::from_str("-p"));
        r.push(self.prompt.clone());
        r.push(String::from_str("-n"));
        r.push(String::from_str("150"));
        proof {
            assert(views(r@) =~= seq![
                "-m"@,
                self.model_path@,
                "-p"@,
                self.prompt@,
                "-n"@,
                "150"@,
            ]);
        }
        r
    }
}

/// The analysis engine: the model that is configured, if any.
pub struct GemmaAI {
    model_path: Option<String>,
    initialized: bool,
}

impl GemmaAI {
    /// The path of the model that is configured.
    pub closed spec fn model(self) -> Option<Seq<char>> {
        match self.model_path {
            Some(p) => Some(p@),
            None => None,
        }
    }

    /// The engine was initialized.
    pub closed spec fn ready(self) -> bool {
        self.initialized
    }

    /// An engine without a model, not yet initialized.
    pub fn new() -> (r: Self)
        ensures
            r.model() is None,
            !r.ready(),
    {
        GemmaAI { model_path: None, initialized: false }
    }

    /// The path of the model that is configured.
    pub fn model_path(&self) -> (r: Option<&String>)
        ensures
            match r {
                Some(p) => self.model() == Some(p@),
                None => self.model() is None,
            },
    {
        match &self.model_path {
            Some(p) => Some(p),
            None => None,
        }
    }

    /// Whether the engine was initialized.
    pub fn is_initialized(&self) -> (r: bool)
        ensures
            r == self.ready(),
    {
        self.initialized
    }

    /// Initializes the engine from the files found in the model directory:
    /// the first of `model_files` that has the extension `gguf` becomes the
    /// model; without one the engine keeps what it had and answers with the
    /// deterministic scorer.
    pub fn initialize(&mut self, model_files: &Vec<String>)
        ensures
            final(self).ready(),
            final(self).model() == match first_model(views(model_files@), 0) {
                Some(i) => Some(model_files@[i]@),
                None => old(self).model(),
            },
    {
        self.initialized = true;
        let mut i: usize = 0;
        while i < model_files.len()
            invariant
                i <= model_files.len(),
                self.initialized,
                self.model() == old(self).model(),
                first_model(views(model_files@), 0) == first_model(views(model_files@), i as int),
            decreases model_files.len() - i,
        {
            if has_model_extension(model_files[i].as_str()) {
                self.model_path = Some(model_files[i].clone());
                return ;
            }
            i += 1;
        }
    }

    /// What is handed to the inference engine for `context`: `None` where no
    /// model is configured, so that the engine is not to be called.
    pub fn inference_request(&self, context: &AnomalyContext) -> (r: Option<InferenceRequest>)
        ensures
            match r {
                Some(q) => self.model() == Some(q.model_path@) && q.prompt@ == prompt_text(
                    context@,
                ),
                None => self.model() is None,
            },
    {
        match &self.model_path {
            Some(p) => Some(
                InferenceRequest { model_path: p.clone(), prompt: build_analysis_prompt(context) },
            ),
            None => None,
        }
    }

    /// The summary of the keyword categories of the error logs among `logs`.
    pub fn analyze_log_patterns(&self, logs: &Vec<String>) -> (r: String)
        ensures
            r@ == pattern_summary(views(logs@), lowercase_each(views(logs@))),
    {
        let lowered = lowercase_all(logs);
        summarize_patterns(logs, &lowered)
    }

    /// The number of alarming conditions that hold of `context`.
    pub fn calculate_critical_score(&self, context: &AnomalyContext) -> (score: u32)
        ensures
            score as nat == critical_score(context@),
            score <= 5,
    {
        context.critical_score()
    }

    /// The answer of the deterministic scorer for `context`.
    pub fn enhanced_fallback_analysis(&self, context: &AnomalyContext) -> (r: AIInsight)
        ensures
            r@ == heuristic_insight(context@),
    {
        let score = self.calculate_critical_score(context);
        let summary = self.analyze_log_patterns(&context.logs);
        fallback_for(context, score, summary.as_str())
    }

    /// The analysis that the reply `response` gives for `context`, and the
    /// backend that it comes from.
    pub fn parse_llm_response(&self, response: &str, context: &AnomalyContext) -> (r: (
        AIInsight,
        Backend,
    ))
        ensures
            r.0@ == parsed_insight(response@, context@),
            r.1 == answering_backend(true, Some(response@)),
    {
        let reply = read_reply(response);
        if reply.analysis.as_str().unicode_len() == 0 {
            (self.enhanced_fallback_analysis(context), Backend::Heuristic)
        } else {
            let mut out: Vec<char> = chars_of("GGUF Model: ");
            push_str(&mut out, reply.analysis.as_str());
            (
                AIInsight {
                    analysis: string_of(&out),
                    severity: reply.severity,
                    root_cause: reply.root_cause,
                    suggested_fixes: reply.fixes,
                    confidence: reply.confidence,
                },
                Backend::Precise,
            )
        }
    }

    /// The analysis of `context`, and the backend that it comes from. `reply`
    /// is what the inference engine printed for the request of
    /// `inference_request`, or `None` where it was not called, could not be
    /// run or failed. This never fails: the deterministic scorer answers
    /// where the engine does not.
    pub fn analyze(&self, context: &AnomalyContext, reply: Option<&str>) -> (r: (
        AIInsight,
        Backend,
    ))
        ensures
            r.0@ == analysed(
                self.model() is Some,
                match reply {
                    Some(t) => Some(t@),
                    None => None,
                },
                context@,
            ),
            r.1 == answering_backend(
                self.model() is Some,
                match reply {
                    Some(t) => Some(t@),
                    None => None,
                },
            ),
    {
        match reply {
            Some(response) => {
                if self.model_path.is_some() {
                    self.parse_llm_response(response, context)
                } else {
                    (self.enhanced_fallback_analysis(context), Backend::Heuristic)
                }
            },
            None => (self.enhanced_fallback_analysis(context), Backend::Heuristic),
        }
    }

    /// The analysis of `context`; see `analyze`.
    pub fn analyze_anomaly(&self, context: &AnomalyContext, reply: Option<&str>) -> (r: AIInsight)
        ensures
            r@ == analysed(
                self.model() is Some,
                match reply {
                    Some(t) => Some(t@),
                    None => None,
                },
                context@,
            ),
    {
        self.analyze(context, reply).0
    }
}

/// The analysis of `context` by `gemma`; see `GemmaAI::analyze`.
pub fn analyze_system_anomaly(
    gemma: &GemmaAI,
    context: AnomalyContext,
    reply: Option<&str>,
) -> (r: AIInsight)
    ensures
        r@ == analysed(
            gemma.model() is Some,
            match reply {
                Some(t) => Some(t@),
                None => None,
            },
            context@,
        ),
{
    gemma.analyze_anomaly(&context, reply)
}

} // verus!
