//! Log humanization: a fixed table of rules explains a log message; where no
//! rule matches, the reply of a local text-generation model does; where that
//! fails too, a generic explanation is given.

use crate::decimal::Decimal;
use crate::events::clone_strings;
use crate::text::{chars_of, list1, list3, list4, push_str, same_text, string_of, views};
use vstd::prelude::*;
use vstd::string::StringExecFns;

verus! {

/// Whether the regular expression `pattern` finds a match somewhere in
/// `text`; `None` where `pattern` does not compile.
pub uninterp spec fn regex_search(pattern: Seq<char>, text: Seq<char>) -> Option<bool>;

/// `regex::Regex::new`, then `regex::Regex::is_match` on the compiled
/// expression: whether there is a match for the pattern anywhere in the text,
/// or `None` where the pattern is refused. The pattern is compiled on every
/// call, so the result is a function of the two texts alone.
#[verifier::external_body]
fn search(pattern: &str, text: &str) -> (r: Option<bool>)
    ensures
        r == regex_search(pattern@, text@),
{
    match regex::Regex::new(pattern) {
        Ok(re) => Some(re.is_match(text)),
        Err(_) => None,
    }
}

/// Whether `doc` is a JSON document.
pub uninterp spec fn json_valid(doc: Seq<char>) -> bool;

/// The string that the JSON document `doc` holds under `key`, where `doc` is
/// an object with such a member.
pub uninterp spec fn json_string_at(doc: Seq<char>, key: Seq<char>) -> Option<Seq<char>>;

/// The array that the JSON document `doc` holds under `key`, where `doc` is an
/// object with such a member; each element is its text where it is a string.
pub uninterp spec fn json_list_at(doc: Seq<char>, key: Seq<char>) -> Option<
    Seq<Option<Seq<char>>>,
>;

/// `serde_json::from_str` to a `serde_json::Value`: whether the text parses
/// as one JSON document.
#[verifier::external_body]
fn json_parses(doc: &str) -> (r: bool)
    ensures
        r == json_valid(doc@),
{
    serde_json::from_str::<serde_json::Value>(doc).is_ok()
}

/// `serde_json::from_str`, then indexing the `serde_json::Value` by `key` and
/// `Value::as_str`: the string member `key` of the document, or `None` where
/// the text does not parse, is no object, has no such member, or the member
/// is no string.
#[verifier::external_body]
fn json_string_field(doc: &str, key: &str) -> (r: Option<String>)
    ensures
        match r {
            Some(s) => json_string_at(doc@, key@) == Some(s@),
            None => json_string_at(doc@, key@) is None,
        },
{
    match serde_json::from_str::<serde_json::Value>(doc) {
        Ok(v) => match v[key].as_str() {
            Some(s) => Some(s.to_string()),
            None => None,
        },
        Err(_) => None,
    }
}

/// What a list of optional strings holds.
pub open spec fn optional_views(v: Seq<Option<String>>) -> Seq<Option<Seq<char>>> {
    v.map_values(
        |e: Option<String>|
            match e {
                Some(s) => Some(s@),
                None => None,
            },
    )
}

/// `serde_json::from_str`, then indexing the `serde_json::Value` by `key` and
/// `Value::as_array`: the array member `key` of the document, each element
/// turned into its text where it is a string and into `None` where it is not;
/// `None` where the text does not parse, is no object, has no such member, or
/// the member is no array.
#[verifier::external_body]
fn json_list_field(doc: &str, key: &str) -> (r: Option<Vec<Option<String>>>)
    ensures
        match r {
            Some(v) => json_list_at(doc@, key@) == Some(optional_views(v@)),
            None => json_list_at(doc@, key@) is None,
        },
{
    match serde_json::from_str::<serde_json::Value>(doc) {
        Ok(v) => match v[key].as_array() {
            Some(a) => Some(a.iter().map(|e| e.as_str().map(|s| s.to_string())).collect()),
            None => None,
        },
        Err(_) => None,
    }
}

/// A log message with its explanation.
#[derive(Debug, PartialEq, Eq)]
pub struct HumanizedLog {
    pub original_message: String,
    pub human_explanation: String,
    pub severity: String,
    pub possible_causes: Vec<String>,
    pub suggested_fixes: Vec<String>,
    pub confidence: Decimal,
}

/// What a humanized log holds.
pub struct HumanizedLogView {
    pub original_message: Seq<char>,
    pub human_explanation: Seq<char>,
    pub severity: Seq<char>,
    pub possible_causes: Seq<Seq<char>>,
    pub suggested_fixes: Seq<Seq<char>>,
    pub confidence: int,
}

impl View for HumanizedLog {
    type V = HumanizedLogView;

    open spec fn view(&self) -> HumanizedLogView {
        HumanizedLogView {
            original_message: self.original_message@,
            human_explanation: self.human_explanation@,
            severity: self.severity@,
            possible_causes: views(self.possible_causes@),
            suggested_fixes: views(self.suggested_fixes@),
            confidence: self.confidence.milli as int,
        }
    }
}

impl Clone for HumanizedLog {
    fn clone(&self) -> (r: Self)
        ensures
            r@ == self@,
    {
        HumanizedLog {
            original_message: self.original_message.clone(),
            human_explanation: self.human_explanation.clone(),
            severity: self.severity.clone(),
            possible_causes: clone_strings(&self.possible_causes),
            suggested_fixes: clone_strings(&self.suggested_fixes),
            confidence: self.confidence,
        }
    }
}

/// A rule of the table: a regular expression and what a match of it means.
#[derive(Debug, PartialEq, Eq)]
pub struct LogPattern {
    pub name: String,
    pub regex: String,
    pub explanation: String,
    pub causes: Vec<String>,
    pub fixes: Vec<String>,
    pub severity: String,
}

/// What a rule holds.
pub struct LogPatternView {
    pub name: Seq<char>,
    pub regex: Seq<char>,
    pub explanation: Seq<char>,
    pub causes: Seq<Seq<char>>,
    pub fixes: Seq<Seq<char>>,
    pub severity: Seq<char>,
}

impl View for LogPattern {
    type V = LogPatternView;

    open spec fn view(&self) -> LogPatternView {
        LogPatternView {
            name: self.name@,
            regex: self.regex@,
            explanation: self.explanation@,
            causes: views(self.causes@),
            fixes: views(self.fixes@),
            severity: self.severity@,
        }
    }
}

/// Confidence of an explanation that a rule gave: 0.9.
pub const RULE_CONFIDENCE: i64 = 900;

/// Confidence of an explanation that the model gave: 0.8.
pub const MODEL_CONFIDENCE: i64 = 800;

/// Confidence of the generic explanation: 0.3.
pub const GENERIC_CONFIDENCE: i64 = 300;

/// The model that is asked where no rule matches.
pub const MODEL_NAME: &'static str = "gemma2:2b";

/// Where the model is asked.
pub const MODEL_ENDPOINT: &'static str = "http://localhost:11434/api/generate";

/// What stands before the log message in the request to the model.
pub const MODEL_PROMPT_HEAD: &'static str =
    "Analyze this log message and provide a JSON response with human_explanation, severity (INFO/WARN/HIGH/CRITICAL), possible_causes (array), and suggested_fixes (array):\n\n";

/// The rule for an exhausted memory.
pub open spec fn out_of_memory_rule() -> LogPatternView {
    LogPatternView {
        name: "out_of_memory"@,
        regex: "(?i)(out.of.memory|oom|memory.*exhausted)"@,
        explanation: "Application ran out of available memory"@,
        causes: seq![
            "Memory leak in application"@,
            "Insufficient memory allocation"@,
            "High traffic causing memory spike"@,
        ],
        fixes: seq![
            "Increase memory limits/allocation"@,
            "Check for memory leaks in code"@,
            "Implement memory monitoring and alerts"@,
            "Scale horizontally or vertically"@,
        ],
        severity: "CRITICAL"@,
    }
}

/// The rule for a full disk.
pub open spec fn disk_full_rule() -> LogPatternView {
    LogPatternView {
        name: "disk_full"@,
        regex: "(?i)(disk.*full|no.*space|storage.*full)"@,
        explanation: "Disk storage is full or nearly full"@,
        causes: seq![
            "Log files consuming too much space"@,
            "Data growth exceeded capacity"@,
            "Temporary files not cleaned up"@,
        ],
        fixes: seq![
            "Clean up old log files and temporary data"@,
            "Implement log rotation"@,
            "Add more storage capacity"@,
            "Set up disk usage monitoring"@,
        ],
        severity: "CRITICAL"@,
    }
}

/// The rule for a failed database operation.
pub open spec fn database_error_rule() -> LogPatternView {
    LogPatternView {
        name: "database_error"@,
        regex: "(?i)(database|sql|mysql|postgres|mongo).*(error|failed|timeout)"@,
        explanation: "Database operation failed"@,
        causes: seq![
            "Database server is down"@,
            "Connection pool exhausted"@,
            "Query timeout or deadlock"@,
            "Invalid SQL syntax"@,
        ],
        fixes: seq![
            "Check database server status"@,
            "Increase connection pool size"@,
            "Optimize slow queries"@,
            "Review and fix SQL syntax"@,
        ],
        severity: "HIGH"@,
    }
}

/// The rule for a connection that could not be made.
pub open spec fn connection_refused_rule() -> LogPatternView {
    LogPatternView {
        name: "connection_refused"@,
        regex: "(?i)connection.*(refused|failed|timeout)"@,
        explanation: "Service connection failed - the target service is unreachable"@,
        causes: seq![
            "Service is down or not running"@,
            "Network connectivity issues"@,
            "Firewall blocking connection"@,
            "Wrong port or hostname"@,
        ],
        fixes: seq![
            "Check if target service is running"@,
            "Verify network connectivity with ping/telnet"@,
            "Check firewall rules and port accessibility"@,
            "Validate configuration (hostname, port)"@,
        ],
        severity: "HIGH"@,
    }
}

/// The rule table, in the order in which the rules are tried: the rules that
/// name an exhausted resource first, then the one that names a subsystem,
/// and the widest pattern last.
pub open spec fn rule_table() -> Seq<LogPatternView> {
    seq![out_of_memory_rule(), disk_full_rule(), database_error_rule(), connection_refused_rule()]
}

/// What a list of rules holds.
pub open spec fn rule_views(rules: Seq<LogPattern>) -> Seq<LogPatternView> {
    rules.map_values(|p: LogPattern| p@)
}

/// The index of the first `true` among `verdicts`, from index `from` on.
pub open spec fn first_true(verdicts: Seq<bool>, from: int) -> Option<int>
    decreases verdicts.len() - from,
{
    if from < 0 || from >= verdicts.len() {
        None
    } else if verdicts[from] {
        Some(from)
    } else {
        first_true(verdicts, from + 1)
    }
}

/// For each rule, whether its expression matches `message`. A rule whose
/// expression does not compile matches nothing.
pub open spec fn rule_verdicts(rules: Seq<LogPatternView>, message: Seq<char>) -> Seq<bool> {
    Seq::new(rules.len(), |i: int| regex_search(rules[i].regex, message) == Some(true))
}

/// What the rule `rule` says of `message`.
pub open spec fn explained_by(rule: LogPatternView, message: Seq<char>) -> HumanizedLogView {
    HumanizedLogView {
        original_message: message,
        human_explanation: rule.explanation,
        severity: rule.severity,
        possible_causes: rule.causes,
        suggested_fixes: rule.fixes,
        confidence: RULE_CONFIDENCE as int,
    }
}

/// What the first rule that `verdicts` marks says of `message`.
pub open spec fn selected(
    rules: Seq<LogPatternView>,
    message: Seq<char>,
    verdicts: Seq<bool>,
) -> Option<HumanizedLogView> {
    match first_true(verdicts, 0) {
        Some(i) => if i < rules.len() {
            Some(explained_by(rules[i], message))
        } else {
            None
        },
        None => None,
    }
}

/// The strings among `items`, in their order.
pub open spec fn strings_among(items: Seq<Option<Seq<char>>>) -> Seq<Seq<char>> {
    items.filter_map(|e: Option<Seq<char>>| e)
}

/// The explanation that the members of a model's answer give for `message`;
/// a member that is missing gets its default.
pub open spec fn from_fields(
    message: Seq<char>,
    explanation: Option<Seq<char>>,
    severity: Option<Seq<char>>,
    causes: Option<Seq<Option<Seq<char>>>>,
    fixes: Option<Seq<Option<Seq<char>>>>,
) -> HumanizedLogView {
    HumanizedLogView {
        original_message: message,
        human_explanation: match explanation {
            Some(e) => e,
            None => "AI analysis completed"@,
        },
        severity: match severity {
            Some(s) => s,
            None => "INFO"@,
        },
        possible_causes: match causes {
            Some(c) => strings_among(c),
            None => seq!["Unknown cause"@],
        },
        suggested_fixes: match fixes {
            Some(f) => strings_among(f),
            None => seq!["Review logs for patterns"@],
        },
        confidence: MODEL_CONFIDENCE as int,
    }
}

/// The explanation that the body of the model's reply gives for `message`:
/// the body is a JSON object whose member `response` is a string that is a
/// JSON document itself, and the explanation is read from the members of
/// that document. `None` where the body has no such shape.
pub open spec fn from_reply(message: Seq<char>, body: Seq<char>) -> Option<HumanizedLogView> {
    match json_string_at(body, "response"@) {
        Some(answer) => if json_valid(answer) {
            Some(
                from_fields(
                    message,
                    json_string_at(answer, "human_explanation"@),
                    json_string_at(answer, "severity"@),
                    json_list_at(answer, "possible_causes"@),
                    json_list_at(answer, "suggested_fixes"@),
                ),
            )
        } else {
            None
        },
        None => None,
    }
}

/// The explanation given where neither a rule nor the model has one.
pub open spec fn generic(message: Seq<char>) -> HumanizedLogView {
    HumanizedLogView {
        original_message: message,
        human_explanation: "Log entry detected - review for potential issues"@,
        severity: "INFO"@,
        possible_causes: seq!["Normal application behavior"@],
        suggested_fixes: seq!["No action required unless part of larger pattern"@],
        confidence: GENERIC_CONFIDENCE as int,
    }
}

/// The explanation of `message`, given the model's reply where there is one:
/// the first matching rule decides; where none matches, the reply does; where
/// there is none or it cannot be read, the generic explanation is given.
pub open spec fn humanized(
    rules: Seq<LogPatternView>,
    message: Seq<char>,
    reply: Option<Seq<char>>,
) -> HumanizedLogView {
    match selected(rules, message, rule_verdicts(rules, message)) {
        Some(h) => h,
        None => match reply {
            Some(body) => match from_reply(message, body) {
                Some(h) => h,
                None => generic(message),
            },
            None => generic(message),
        },
    }
}

/// The confidence of an explanation tells where it comes from: 0.9 for one
/// that a rule gave, 0.8 for one that the model gave, 0.3 for the generic
/// one.
pub proof fn law_confidence_names_the_source(
    rules: Seq<LogPatternView>,
    message: Seq<char>,
    reply: Option<Seq<char>>,
)
    ensures
        selected(rules, message, rule_verdicts(rules, message)) is Some ==> humanized(
            rules,
            message,
            reply,
        ).confidence == RULE_CONFIDENCE,
        selected(rules, message, rule_verdicts(rules, message)) is None ==> humanized(
            rules,
            message,
            reply,
        ).confidence == (if reply is Some && from_reply(message, reply->0) is Some {
            MODEL_CONFIDENCE
        } else {
            GENERIC_CONFIDENCE
        }),
{
}

/// What the model replied when it was asked about a message: the body of
/// its reply, or `None` where it could not be reached or refused.
#[derive(Debug, PartialEq, Eq)]
pub struct ModelReply {
    pub message: String,
    pub body: Option<String>,
}

/// The body of the reply about `message` among `replies`, from index `from`
/// on: that of the first reply about it. `None` where the model was not
/// asked about the message or gave no reply.
pub open spec fn reply_for(replies: Seq<ModelReply>, message: Seq<char>, from: int) -> Option<
    Seq<char>,
>
    decreases replies.len() - from,
{
    if from < 0 || from >= replies.len() {
        None
    } else if replies[from].message@ == message {
        match replies[from].body {
            Some(b) => Some(b@),
            None => None,
        }
    } else {
        reply_for(replies, message, from + 1)
    }
}

/// The body of the reply about `message` among `replies`.
pub fn find_reply<'a>(replies: &'a Vec<ModelReply>, message: &str) -> (r: Option<&'a str>)
    ensures
        reply_for(replies@, message@, 0) == match r {
            Some(t) => Some(t@),
            None => None,
        },
{
    let mut i: usize = 0;
    while i < replies.len()
        invariant
            i <= replies.len(),
            reply_for(replies@, message@, 0) == reply_for(replies@, message@, i as int),
        decreases replies.len() - i,
    {
        if same_text(replies[i].message.as_str(), message) {
            return match &replies[i].body {
                Some(b) => Some(b.as_str()),
                None => None,
            };
        }
        i += 1;
    }
    None
}

/// The strings among `items`, in their order.
pub fn keep_strings(items: Vec<Option<String>>) -> (r: Vec<String>)
    ensures
        views(r@) == strings_among(optional_views(items@)),
{
    let mut r: Vec<String> = Vec::new();
    let mut i: usize = 0;
    let ghost all = optional_views(items@);
    proof {
        assert(all.take(0) =~= Seq::<Option<Seq<char>>>::empty());
    }
    while i < items.len()
        invariant
            i <= items.len(),
            all == optional_views(items@),
            views(r@) == strings_among(all.take(i as int)),
        decreases items.len() - i,
    {
        proof {
            assert(all.take(i + 1).drop_last() =~= all.take(i as int));
            assert(all.take(i + 1).last() == all[i as int]);
        }
        let ghost before = r@;
        match &items[i] {
            Some(s) => {
                r.push(s.clone());
                proof {
                    assert(views(r@) =~= views(before) + seq![s@]);
                }
            },
            None => {},
        }
        i += 1;
    }
    proof {
        assert(all.take(items.len() as int) =~= all);
    }
    r
}

impl HumanizedLog {
    /// The explanation that the members of a model's answer give for
    /// `message`; a member that is missing gets its default.
    pub fn from_model_fields(
        message: &str,
        explanation: Option<String>,
        severity: Option<String>,
        causes: Option<Vec<Option<String>>>,
        fixes: Option<Vec<Option<String>>>,
    ) -> (r: HumanizedLog)
        ensures
            r@ == from_fields(
                message@,
                match explanation {
                    Some(e) => Some(e@),
                    None => None,
                },
                match severity {
                    Some(s) => Some(s@),
                    None => None,
                },
                match causes {
                    Some(c) => Some(optional_views(c@)),
                    None => None,
                },
                match fixes {
                    Some(f) => Some(optional_views(f@)),
                    None => None,
                },
            ),
    {
        HumanizedLog {
            original_message: String::from_str(message),
            human_explanation: match explanation {
                Some(e) => e,
                None => String::from_str("AI analysis completed"),
            },
            severity: match severity {
                Some(s) => s,
                None => String::from_str("INFO"),
            },
            possible_causes: match causes {
                Some(c) => keep_strings(c),
                None => list1("Unknown cause"),
            },
            suggested_fixes: match fixes {
                Some(f) => keep_strings(f),
                None => list1("Review logs for patterns"),
            },
            confidence: Decimal::from_milli(MODEL_CONFIDENCE),
        }
    }

    /// The explanation that the body of the model's reply gives for
    /// `message`, or `None` where the body cannot be read.
    pub fn from_model_reply(message: &str, body: &str) -> (r: Option<HumanizedLog>)
        ensures
            match r {
                Some(h) => from_reply(message@, body@) == Some(h@),
                None => from_reply(message@, body@) is None,
            },
    {
        match json_string_field(body, "response") {
            Some(answer) => {
                if json_parses(answer.as_str()) {
                    let explanation = json_string_field(answer.as_str(), "human_explanation");
                    let severity = json_string_field(answer.as_str(), "severity");
                    let causes = json_list_field(answer.as_str(), "possible_causes");
                    let fixes = json_list_field(answer.as_str(), "suggested_fixes");
                    Some(
                        HumanizedLog::from_model_fields(
                            message,
                            explanation,
                            severity,
                            causes,
                            fixes,
                        ),
                    )
                } else {
                    None
                }
            },
            None => None,
        }
    }

    /// The explanation given where neither a rule nor the model has one.
    pub fn generic_for(message: &str) -> (r: HumanizedLog)
        ensures
            r@ == generic(message@),
    {
        HumanizedLog {
            original_message: String::from_str(message),
            human_explanation: String::from_str(
                "Log entry detected - review for potential issues",
            ),
            severity: String::from_str("INFO"),
            possible_causes: list1("Normal application behavior"),
            suggested_fixes: list1("No action required unless part of larger pattern"),
            confidence: Decimal::from_milli(GENERIC_CONFIDENCE),
        }
    }
}

impl LogPattern {
    /// What this rule says of `message`.
    pub fn explain(&self, message: &str) -> (r: HumanizedLog)
        ensures
            r@ == explained_by(self@, message@),
    {
        HumanizedLog {
            original_message: String::from_str(message),
            human_explanation: self.explanation.clone(),
            severity: self.severity.clone(),
            possible_causes: clone_strings(&self.causes),
            suggested_fixes: clone_strings(&self.fixes),
            confidence: Decimal::from_milli(RULE_CONFIDENCE),
        }
    }
}

/// The request text that asks the model about `message`.
pub fn model_prompt(message: &str) -> (r: String)
    ensures
        r@ == MODEL_PROMPT_HEAD@ + message@,
{
    let mut out: Vec<char> = chars_of(MODEL_PROMPT_HEAD);
    push_str(&mut out, message);
    string_of(&out)
}

/// The rule table with its fixed order.
pub struct LogHumanizer {
    pub patterns: Vec<LogPattern>,
}

impl View for LogHumanizer {
    type V = Seq<LogPatternView>;

    open spec fn view(&self) -> Seq<LogPatternView> {
        rule_views(self.patterns@)
    }
}

impl LogHumanizer {
    /// The humanizer with the four rules of the table, in the table's order.
    pub fn new() -> (r: Self)
        ensures
            r@ == rule_table(),
    {
        let mut patterns: Vec<LogPattern> = Vec::new();
        patterns.push(
            LogPattern {
                name: String::from_str("out_of_memory"),
                regex: String::from_str("(?i)(out.of.memory|oom|memory.*exhausted)"),
                explanation: String::from_str("Application ran out of available memory"),
                causes: list3(
                    "Memory leak in application",
                    "Insufficient memory allocation",
                    "High traffic causing memory spike",
                ),
                fixes: list4(
                    "Increase memory limits/allocation",
                    "Check for memory leaks in code",
                    "Implement memory monitoring and alerts",
                    "Scale horizontally or vertically",
                ),
                severity: String::from_str("CRITICAL"),
            },
        );
        patterns.push(
            LogPattern {
                name: String::from_str("disk_full"),
                regex: String::from_str("(?i)(disk.*full|no.*space|storage.*full)"),
                explanation: String::from_str("Disk storage is full or nearly full"),
                causes: list3(
                    "Log files consuming too much space",
                    "Data growth exceeded capacity",
                    "Temporary files not cleaned up",
                ),
                fixes: list4(
                    "Clean up old log files and temporary data",
                    "Implement log rotation",
                    "Add more storage capacity",
                    "Set up disk usage monitoring",
                ),
                severity: String::from_str("CRITICAL"),
            },
        );
        patterns.push(
            LogPattern {
                name: String::from_str("database_error"),
                regex: String::from_str(
                    "(?i)(database|sql|mysql|postgres|mongo).*(error|failed|timeout)",
                ),
                explanation: String::from_str("Database operation failed"),
                causes: list4(
                    "Database server is down",
                    "Connection pool exhausted",
                    "Query timeout or deadlock",
                    "Invalid SQL syntax",
                ),
                fixes: list4(
                    "Check database server status",
                    "Increase connection pool size",
                    "Optimize slow queries",
                    "Review and fix SQL syntax",
                ),
                severity: String::from_str("HIGH"),
            },
        );
        patterns.push(
            LogPattern {
                name: String::from_str("connection_refused"),
                regex: String::from_str("(?i)connection.*(refused|failed|timeout)"),
                explanation: String::from_str(
                    "Service connection failed - the target service is unreachable",
                ),
                causes: list4(
                    "Service is down or not running",
                    "Network connectivity issues",
                    "Firewall blocking connection",
                    "Wrong port or hostname",
                ),
                fixes: list4(
                    "Check if target service is running",
                    "Verify network connectivity with ping/telnet",
                    "Check firewall rules and port accessibility",
                    "Validate configuration (hostname, port)",
                ),
                severity: String::from_str("HIGH"),
            },
        );
        proof {
            assert(rule_views(patterns@) =~= rule_table());
        }
        LogHumanizer { patterns }
    }

    /// For each rule in the table's order, whether its expression matches
    /// `message`.
    pub fn verdicts(&self, message: &str) -> (r: Vec<bool>)
        ensures
            r@ == rule_verdicts(self@, message@),
    {
        let mut r: Vec<bool> = Vec::new();
        let mut i: usize = 0;
        while i < self.patterns.len()
            invariant
                i <= self.patterns.len(),
                r@.len() == i,
                forall|k: int|
                    0 <= k < i ==> r@[k] == (regex_search(
                        #[trigger] self.patterns@[k].regex@,
                        message@,
                    ) == Some(true)),
            decreases self.patterns.len() - i,
        {
            let verdict = match search(self.patterns[i].regex.as_str(), message) {
                Some(found) => found,
                None => false,
            };
            r.push(verdict);
            i += 1;
        }
        proof {
            assert(r@ =~= rule_verdicts(self@, message@));
        }
        r
    }

    /// What the first rule that `verdicts` marks says of `message`; `None`
    /// where it marks no rule of the table.
    pub fn select(&self, message: &str, verdicts: &Vec<bool>) -> (r: Option<HumanizedLog>)
        ensures
            match r {
                Some(h) => selected(self@, message@, verdicts@) == Some(h@),
                None => selected(self@, message@, verdicts@) is None,
            },
    {
        let mut i: usize = 0;
        while i < verdicts.len()
            invariant
                i <= verdicts.len(),
                first_true(verdicts@, 0) == first_true(verdicts@, i as int),
            decreases verdicts.len() - i,
        {
            if verdicts[i] {
                if i < self.patterns.len() {
                    return Some(self.patterns[i].explain(message));
                } else {
                    return None;
                }
            }
            i += 1;
        }
        None
    }

    /// What the first rule whose expression matches `message` says of it.
    pub fn pattern_match(&self, message: &str) -> (r: Option<HumanizedLog>)
        ensures
            match r {
                Some(h) => selected(self@, message@, rule_verdicts(self@, message@)) == Some(h@),
                None => selected(self@, message@, rule_verdicts(self@, message@)) is None,
            },
    {
        let verdicts = self.verdicts(message);
        self.select(message, &verdicts)
    }

    /// Whether the model has to be asked about `message`: no rule matches it.
    pub fn needs_model(&self, message: &str) -> (r: bool)
        ensures
            r == (selected(self@, message@, rule_verdicts(self@, message@)) is None),
    {
        self.pattern_match(message).is_none()
    }

    /// The explanation of `message`. `reply` is the body of the model's reply
    /// to the request for `message`, or `None` where the model was not asked,
    /// could not be reached or refused. This never fails.
    pub fn humanize_log(&self, message: &str, reply: Option<&str>) -> (r: HumanizedLog)
        ensures
            r@ == humanized(
                self@,
                message@,
                match reply {
                    Some(body) => Some(body@),
                    None => None,
                },
            ),
    {
        match self.pattern_match(message) {
            Some(h) => h,
            None => match reply {
                Some(body) => match HumanizedLog::from_model_reply(message, body) {
                    Some(h) => h,
                    None => HumanizedLog::generic_for(message),
                },
                None => HumanizedLog::generic_for(message),
            },
        }
    }
}

/// The explanation of `message` by `humanizer`; see `LogHumanizer::humanize_log`.
pub fn humanize_log_message(
    humanizer: &LogHumanizer,
    message: &str,
    reply: Option<&str>,
) -> (r: HumanizedLog)
    ensures
        r@ == humanized(
            humanizer@,
            message@,
            match reply {
                Some(body) => Some(body@),
                None => None,
            },
        ),
{
    humanizer.humanize_log(message, reply)
}

} // verus!
