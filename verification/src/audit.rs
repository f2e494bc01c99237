//! Whether a database records who did what.

use vstd::prelude::*;
use crate::names::text_or_none;
use crate::text::{chars_of, find_from, first_place, lemma_first_place, same_text, text_of, trim, trimmed};

verus! {

/// The name under which the main pool connects.
pub const MAIN_APPLICATION_NAME: &'static str = "control-layer";

/// The name under which the batch daemon's pool connects.
pub const FUSILLADE_APPLICATION_NAME: &'static str = "control-layer/fusillade";

/// The name under which the request log's pool connects.
pub const OUTLET_APPLICATION_NAME: &'static str = "control-layer/outlet";

/// A question to the database about its audit settings.
#[derive(Debug, Clone, Copy, PartialEq, Eq, Structural)]
pub enum AuditProbe {
    DatabaseName,
    Extension,
    PreloadLibraries,
    AuditLog,
    LogConnections,
    LogDisconnections,
}

impl AuditProbe {
    /// The query that asks.
    pub open spec fn query(self) -> Seq<char> {
        match self {
            AuditProbe::DatabaseName => "SELECT current_database()"@,
            AuditProbe::Extension =>
                "SELECT EXISTS (SELECT 1 FROM pg_extension WHERE extname = 'pgaudit')"@,
            AuditProbe::PreloadLibraries =>
                "SELECT current_setting('shared_preload_libraries', true)"@,
            AuditProbe::AuditLog => "SELECT current_setting('pgaudit.log', true)"@,
            AuditProbe::LogConnections => "SELECT current_setting('log_connections', true)"@,
            AuditProbe::LogDisconnections => "SELECT current_setting('log_disconnections', true)"@,
        }
    }

    /// What is reported where there is no answer.
    pub open spec fn complaint(self) -> Seq<char> {
        match self {
            AuditProbe::DatabaseName => "Failed to inspect PostgreSQL audit settings"@,
            AuditProbe::Extension => "Failed to check whether pgAudit is installed"@,
            AuditProbe::PreloadLibraries => "Failed to read shared_preload_libraries"@,
            AuditProbe::AuditLog => "Failed to read pgaudit.log"@,
            AuditProbe::LogConnections => "Failed to read log_connections"@,
            AuditProbe::LogDisconnections => "Failed to read log_disconnections"@,
        }
    }

    /// The query that asks.
    pub fn sql(self) -> (r: &'static str)
        ensures
            r@ == self.query(),
    {
        match self {
            AuditProbe::DatabaseName => "SELECT current_database()",
            AuditProbe::Extension =>
                "SELECT EXISTS (SELECT 1 FROM pg_extension WHERE extname = 'pgaudit')",
            AuditProbe::PreloadLibraries =>
                "SELECT current_setting('shared_preload_libraries', true)",
            AuditProbe::AuditLog => "SELECT current_setting('pgaudit.log', true)",
            AuditProbe::LogConnections => "SELECT current_setting('log_connections', true)",
            AuditProbe::LogDisconnections => "SELECT current_setting('log_disconnections', true)",
        }
    }

    /// What is reported where there is no answer.
    pub fn failure_message(self) -> (r: &'static str)
        ensures
            r@ == self.complaint(),
    {
        match self {
            AuditProbe::DatabaseName => "Failed to inspect PostgreSQL audit settings",
            AuditProbe::Extension => "Failed to check whether pgAudit is installed",
            AuditProbe::PreloadLibraries => "Failed to read shared_preload_libraries",
            AuditProbe::AuditLog => "Failed to read pgaudit.log",
            AuditProbe::LogConnections => "Failed to read log_connections",
            AuditProbe::LogDisconnections => "Failed to read log_disconnections",
        }
    }

    /// The question after this one.
    pub open spec fn following(self) -> Option<AuditProbe> {
        match self {
            AuditProbe::DatabaseName => Some(AuditProbe::Extension),
            AuditProbe::Extension => Some(AuditProbe::PreloadLibraries),
            AuditProbe::PreloadLibraries => Some(AuditProbe::AuditLog),
            AuditProbe::AuditLog => Some(AuditProbe::LogConnections),
            AuditProbe::LogConnections => Some(AuditProbe::LogDisconnections),
            AuditProbe::LogDisconnections => None,
        }
    }

    /// The question after this one.
    pub fn next(self) -> (r: Option<AuditProbe>)
        ensures
            r == self.following(),
    {
        match self {
            AuditProbe::DatabaseName => Some(AuditProbe::Extension),
            AuditProbe::Extension => Some(AuditProbe::PreloadLibraries),
            AuditProbe::PreloadLibraries => Some(AuditProbe::AuditLog),
            AuditProbe::AuditLog => Some(AuditProbe::LogConnections),
            AuditProbe::LogConnections => Some(AuditProbe::LogDisconnections),
            AuditProbe::LogDisconnections => None,
        }
    }
}

/// What the database answered.
#[derive(Debug)]
pub struct AuditSettings {
    pub extension_installed: bool,
    pub shared_preload_libraries: Option<String>,
    pub pgaudit_log: Option<String>,
    pub log_connections: Option<String>,
    pub log_disconnections: Option<String>,
}

/// Where the entry that begins at `from` ends in a list with commas.
pub open spec fn entry_end(list: Seq<char>, from: int) -> int {
    match first_place(list, seq![','], from) {
        Some(i) => i,
        None => list.len() as int,
    }
}

/// Whether an entry of a list with commas, from `from` on, is a name but for
/// white space around it.
pub open spec fn has_entry(list: Seq<char>, from: int, name: Seq<char>) -> bool
    decreases list.len() - from,
    when 0 <= from
    via has_entry_ends
{
    let end = entry_end(list, from);
    if from > list.len() {
        false
    } else {
        trimmed(list.subrange(from, end)) == name || (end < list.len() && has_entry(
            list,
            end + 1,
            name,
        ))
    }
}

#[via_fn]
proof fn has_entry_ends(list: Seq<char>, from: int, name: Seq<char>) {
    lemma_first_place(list, seq![','], from);
}

/// Whether a list with commas has an entry, white space around it aside.
pub fn lists(list: &str, name: &str) -> (r: bool)
    ensures
        r == has_entry(list@, 0, name@),
{
    let chars = chars_of(list);
    let mut comma: Vec<char> = Vec::new();
    comma.push(',');
    assert(comma@ =~= seq![',']);
    let mut from: usize = 0;
    loop
        invariant
            chars@ == list@,
            comma@ == seq![','],
            from <= chars@.len(),
            has_entry(list@, 0, name@) == has_entry(list@, from as int, name@),
        decreases chars@.len() - from,
    {
        let end: usize = match find_from(&chars, &comma, from) {
            Some(i) => i,
            None => chars.len(),
        };
        let entry = text_of(&chars, from, end);
        if same_text(trim(entry.as_str()).as_str(), name) {
            return true;
        }
        if end >= chars.len() {
            return false;
        }
        from = end + 1;
    }
}

/// Whether a setting is switched on.
pub open spec fn is_on(setting: Option<String>) -> bool {
    text_or_none(setting) == Some("on"@)
}

/// Whether a setting names something to be recorded.
pub open spec fn records_something(setting: Option<String>) -> bool {
    setting matches Some(value) && trimmed(value@).len() > 0 && trimmed(value@) != "none"@
}

/// Whether a database records who did what: the extension is installed and
/// loaded, it records something, and connections are recorded from end to end.
pub open spec fn is_audited(s: AuditSettings) -> bool {
    &&& s.extension_installed
    &&& s.shared_preload_libraries matches Some(list) && has_entry(list@, 0, "pgaudit"@)
    &&& records_something(s.pgaudit_log)
    &&& is_on(s.log_connections)
    &&& is_on(s.log_disconnections)
}

fn switched_on(setting: &Option<String>) -> (r: bool)
    ensures
        r == is_on(*setting),
{
    match setting {
        Some(value) => same_text(value.as_str(), "on"),
        None => false,
    }
}

/// Whether a database records who did what.
pub fn audit_complete(settings: &AuditSettings) -> (r: bool)
    ensures
        r == is_audited(*settings),
{
    let preload_has_pgaudit = match &settings.shared_preload_libraries {
        Some(list) => lists(list.as_str(), "pgaudit"),
        None => false,
    };
    let log_configured = match &settings.pgaudit_log {
        Some(value) => {
            let log = trim(value.as_str());
            !log.as_str().is_empty() && !same_text(log.as_str(), "none")
        },
        None => false,
    };
    let connections_logged = switched_on(&settings.log_connections) && switched_on(
        &settings.log_disconnections,
    );
    settings.extension_installed && preload_has_pgaudit && log_configured && connections_logged
}

/// What is done after a question.
#[derive(Debug, Clone, Copy, PartialEq, Eq, Structural)]
pub enum AuditAction {
    /// Ask the next one.
    Ask(AuditProbe),
    /// Report that this one has no answer, and ask no more. The database is named
    /// where its name is known.
    GiveUp { probe: AuditProbe, database_known: bool },
    /// Report on the settings.
    Report { complete: bool },
}

/// What is done after a question, with the answers so far.
pub open spec fn action_after(probe: AuditProbe, answered: bool, settings: AuditSettings) -> AuditAction {
    if !answered {
        AuditAction::GiveUp { probe, database_known: probe != AuditProbe::DatabaseName }
    } else {
        match probe.following() {
            Some(next) => AuditAction::Ask(next),
            None => AuditAction::Report { complete: is_audited(settings) },
        }
    }
}

/// What is done after a question, with the answers so far: the next question, or
/// the report once all have answers. A question without one ends it.
pub fn after_probe(probe: AuditProbe, answered: bool, settings: &AuditSettings) -> (r: AuditAction)
    ensures
        r == action_after(probe, answered, *settings),
{
    if !answered {
        return AuditAction::GiveUp { probe, database_known: probe != AuditProbe::DatabaseName };
    }
    match probe.next() {
        Some(next) => AuditAction::Ask(next),
        None => AuditAction::Report { complete: audit_complete(settings) },
    }
}

/// How many questions are left, this one counted.
pub open spec fn probes_left(probe: AuditProbe) -> int {
    match probe {
        AuditProbe::DatabaseName => 6,
        AuditProbe::Extension => 5,
        AuditProbe::PreloadLibraries => 4,
        AuditProbe::AuditLog => 3,
        AuditProbe::LogConnections => 2,
        AuditProbe::LogDisconnections => 1,
    }
}

/// Six answers end in a report, and no question comes twice.
pub proof fn law_audit_ends(probe: AuditProbe, answered: bool, settings: AuditSettings)
    ensures
        action_after(probe, answered, settings) matches AuditAction::Ask(next) ==> probes_left(next)
            == probes_left(probe) - 1,
        action_after(probe, answered, settings) is Report <==> answered && probes_left(probe) == 1,
{
}

/// What is reported of the settings.
pub fn audit_message(complete: bool) -> (r: &'static str)
    ensures
        r@ == (if complete {
            "PostgreSQL audit settings detected"@
        } else {
            "PostgreSQL audit settings are incomplete"@
        }),
{
    if complete {
        "PostgreSQL audit settings detected"
    } else {
        "PostgreSQL audit settings are incomplete"
    }
}

/// A database without one of the five settings is not audited.
pub proof fn law_every_audit_setting_counts(s: AuditSettings)
    ensures
        !s.extension_installed ==> !is_audited(s),
        s.shared_preload_libraries is None ==> !is_audited(s),
        s.pgaudit_log is None ==> !is_audited(s),
        s.log_connections is None ==> !is_audited(s),
        s.log_disconnections is None ==> !is_audited(s),
{
}

/// A database is audited exactly where the extension is installed and named among
/// the libraries that are loaded, something is recorded, and connections and
/// disconnections are both `on`.
pub proof fn law_audit_needs_every_setting(s: AuditSettings)
    ensures
        is_audited(s) <==> s.extension_installed && s.shared_preload_libraries is Some && has_entry(
            (s.shared_preload_libraries->0)@,
            0,
            seq!['p', 'g', 'a', 'u', 'd', 'i', 't'],
        ) && s.pgaudit_log is Some && trimmed((s.pgaudit_log->0)@).len() > 0 && trimmed(
            (s.pgaudit_log->0)@,
        ) != seq!['n', 'o', 'n', 'e'] && s.log_connections is Some && (s.log_connections->0)@
            == seq!['o', 'n'] && s.log_disconnections is Some && (s.log_disconnections->0)@ == seq![
            'o',
            'n',
        ],
{
    reveal_strlit("pgaudit");
    reveal_strlit("none");
    reveal_strlit("on");
    assert("pgaudit"@ =~= seq!['p', 'g', 'a', 'u', 'd', 'i', 't']);
    assert("none"@ =~= seq!['n', 'o', 'n', 'e']);
    assert("on"@ =~= seq!['o', 'n']);
}

proof fn lemma_comma(s: Seq<char>, i: int)
    ensures
        crate::text::occurs_at(s, seq![','], i) <==> 0 <= i < s.len() && s[i] == ',',
{
    if 0 <= i < s.len() {
        assert(s.subrange(i, i + 1)[0] == s[i]);
        if s[i] == ',' {
            assert(s.subrange(i, i + 1) =~= seq![',']);
        }
    }
}

/// Where a list ends behind a place does not depend on what stands before it.
proof fn lemma_end_shifts(s: Seq<char>, k: int, from: int)
    requires
        0 <= k <= s.len(),
        0 <= from <= s.len() - k,
    ensures
        entry_end(s, k + from) == entry_end(s.skip(k), from) + k,
        from <= entry_end(s.skip(k), from) <= s.len() - k,
{
    let t = s.skip(k);
    lemma_first_place(s, seq![','], k + from);
    lemma_first_place(t, seq![','], from);
    let a = first_place(s, seq![','], k + from);
    let b = first_place(t, seq![','], from);
    if a is Some {
        lemma_comma(s, a->0);
        lemma_comma(t, a->0 - k);
        assert(crate::text::occurs_at(t, seq![','], a->0 - k));
    }
    if b is Some {
        lemma_comma(t, b->0);
        lemma_comma(s, b->0 + k);
        assert(crate::text::occurs_at(s, seq![','], b->0 + k));
    }
    if a is Some && b is Some {
        if a->0 < b->0 + k {
            assert(!crate::text::occurs_at(t, seq![','], a->0 - k));
        } else if b->0 + k < a->0 {
            assert(!crate::text::occurs_at(s, seq![','], b->0 + k));
        }
    }
}

proof fn lemma_entries_shift(s: Seq<char>, k: int, from: int, name: Seq<char>)
    requires
        0 <= k <= s.len(),
        0 <= from <= s.len() - k,
    ensures
        has_entry(s, k + from, name) == has_entry(s.skip(k), from, name),
    decreases s.len() - k - from,
{
    let t = s.skip(k);
    lemma_end_shifts(s, k, from);
    let end = entry_end(t, from);
    assert(t.subrange(from, end) =~= s.subrange(k + from, k + end));
    if end < t.len() {
        lemma_entries_shift(s, k, end + 1, name);
    }
}

/// A list without a comma has itself as its only entry, white space around it
/// aside, and a list with one has what stands before it and what the rest has.
pub proof fn law_lists_are_split_at_commas(first: Seq<char>, rest: Seq<char>, name: Seq<char>)
    requires
        forall|i: int| 0 <= i < first.len() ==> #[trigger] first[i] != ',',
    ensures
        has_entry(first, 0, name) <==> trimmed(first) == name,
        has_entry(first + seq![','] + rest, 0, name) <==> trimmed(first) == name || has_entry(
            rest,
            0,
            name,
        ),
{
    lemma_first_place(first, seq![','], 0);
    if let Some(i) = first_place(first, seq![','], 0) {
        lemma_comma(first, i);
        assert(first[i] != ',');
    }
    assert(first.subrange(0, first.len() as int) =~= first);
    let whole = first + seq![','] + rest;
    let n = first.len() as int;
    lemma_first_place(whole, seq![','], 0);
    lemma_comma(whole, n);
    assert(crate::text::occurs_at(whole, seq![','], n));
    let end = entry_end(whole, 0);
    lemma_comma(whole, end);
    if end < n {
        assert(first[end] != ',');
    } else if end > n {
        assert(!crate::text::occurs_at(whole, seq![','], n));
    }
    assert(end == n);
    assert(whole.subrange(0, n) =~= first);
    assert(whole.skip(n + 1) =~= rest);
    lemma_entries_shift(whole, n + 1, 0, name);
}

/// The questions come in one order, each with an answer leading to the next; one
/// without an answer ends them, and only the first leaves the database unnamed.
pub proof fn law_questions_come_in_order(probe: AuditProbe, settings: AuditSettings)
    ensures
        action_after(probe, false, settings) == (AuditAction::GiveUp {
            probe,
            database_known: !(probe is DatabaseName),
        }),
        action_after(AuditProbe::DatabaseName, true, settings) == AuditAction::Ask(
            AuditProbe::Extension,
        ),
        action_after(AuditProbe::Extension, true, settings) == AuditAction::Ask(
            AuditProbe::PreloadLibraries,
        ),
        action_after(AuditProbe::PreloadLibraries, true, settings) == AuditAction::Ask(
            AuditProbe::AuditLog,
        ),
        action_after(AuditProbe::AuditLog, true, settings) == AuditAction::Ask(
            AuditProbe::LogConnections,
        ),
        action_after(AuditProbe::LogConnections, true, settings) == AuditAction::Ask(
            AuditProbe::LogDisconnections,
        ),
        action_after(AuditProbe::LogDisconnections, true, settings) == (AuditAction::Report {
            complete: is_audited(settings),
        }),
{
}

/// Each question is put in words of its own, and so is what is reported where it
/// has no answer; what is reported at the end tells the two outcomes apart.
pub proof fn law_questions_are_told_apart(
    a: AuditProbe,
    b: AuditProbe,
    asked_a: &'static str,
    asked_b: &'static str,
    reported_a: &'static str,
    reported_b: &'static str,
    complete: &'static str,
    incomplete: &'static str,
)
    requires
        call_ensures(AuditProbe::sql, (a,), asked_a),
        call_ensures(AuditProbe::sql, (b,), asked_b),
        call_ensures(AuditProbe::failure_message, (a,), reported_a),
        call_ensures(AuditProbe::failure_message, (b,), reported_b),
        call_ensures(audit_message, (true,), complete),
        call_ensures(audit_message, (false,), incomplete),
        a != b,
    ensures
        asked_a@ != asked_b@,
        reported_a@ != reported_b@,
        complete@ != incomplete@,
{
    lemma_lengths_of_words();
    assert(a.query().len() != b.query().len());
    assert(a.complaint().len() != b.complaint().len());
}

proof fn lemma_lengths_of_words()
    ensures
        AuditProbe::DatabaseName.query().len() == 25,
        AuditProbe::Extension.query().len() == 68,
        AuditProbe::PreloadLibraries.query().len() == 56,
        AuditProbe::AuditLog.query().len() == 43,
        AuditProbe::LogConnections.query().len() == 47,
        AuditProbe::LogDisconnections.query().len() == 50,
        AuditProbe::DatabaseName.complaint().len() == 43,
        AuditProbe::Extension.complaint().len() == 44,
        AuditProbe::PreloadLibraries.complaint().len() == 39,
        AuditProbe::AuditLog.complaint().len() == 26,
        AuditProbe::LogConnections.complaint().len() == 30,
        AuditProbe::LogDisconnections.complaint().len() == 33,
        "PostgreSQL audit settings detected"@.len() == 34,
        "PostgreSQL audit settings are incomplete"@.len() == 40,
{
    reveal_strlit("SELECT current_database()");
    reveal_strlit("SELECT EXISTS (SELECT 1 FROM pg_extension WHERE extname = 'pgaudit')");
    reveal_strlit("SELECT current_setting('shared_preload_libraries', true)");
    reveal_strlit("SELECT current_setting('pgaudit.log', true)");
    reveal_strlit("SELECT current_setting('log_connections', true)");
    reveal_strlit("SELECT current_setting('log_disconnections', true)");
    reveal_strlit("Failed to inspect PostgreSQL audit settings");
    reveal_strlit("Failed to check whether pgAudit is installed");
    reveal_strlit("Failed to read shared_preload_libraries");
    reveal_strlit("Failed to read pgaudit.log");
    reveal_strlit("Failed to read log_connections");
    reveal_strlit("Failed to read log_disconnections");
    reveal_strlit("PostgreSQL audit settings detected");
    reveal_strlit("PostgreSQL audit settings are incomplete");
}

}
