//! The agent workspace: where its files live, and the life of an error
//! record (reported once per distinct error, resolved once with a history
//! entry that tells what fixed it).
use vstd::prelude::*;
use crate::text::{decimal, push_decimal, push_str, str_eq};

verus! {

/// `PathBuf::push` on Unix: an absolute component replaces the path,
/// otherwise it is appended after a `/` unless the path is empty or already
/// ends with one.
pub open spec fn join_path(base: Seq<char>, comp: Seq<char>) -> Seq<char> {
    if comp.len() > 0 && comp[0] == '/' {
        comp
    } else if base.len() == 0 || base.last() == '/' {
        base + comp
    } else {
        base + seq!['/'] + comp
    }
}

/// Joins `comp` onto `base` as `Path::join` does on Unix.
pub fn path_join(base: &str, comp: &str) -> (p: String)
    ensures
        p@ == join_path(base@, comp@),
{
    if !comp.is_empty() && comp.get_char(0) == '/' {
        return comp.to_owned();
    }
    let mut p = base.to_owned();
    if !base.is_empty() {
        let n = base.unicode_len();
        if base.get_char(n - 1) != '/' {
            crate::text::push_char(&mut p, '/');
        }
    }
    push_str(&mut p, comp);
    p
}

/// A point in time as seconds and nanoseconds since the Unix epoch (UTC).
#[derive(Debug, Clone, Copy, PartialEq, Eq, Structural)]
pub struct Timestamp {
    pub secs: i64,
    pub nanos: u32,
}

/// Whether an error still needs fixing.
#[derive(Debug, Clone, Copy, PartialEq, Eq, Structural)]
pub enum ErrorStatus {
    Active,
    Resolved,
}

/// Guidance attached to an error for an agent that is to fix it.
#[derive(Debug, Clone)]
pub struct AgentErrorMetadata {
    pub error_code: String,
    pub explanation: String,
    pub suggested_fixes: Vec<String>,
    pub rustc_error: Option<String>,
}

/// An error found in the project.
#[derive(Debug, Clone)]
pub struct ProjectError {
    pub file: String,
    pub line: u32,
    pub column: u32,
    pub message: String,
    pub code_context: String,
    /// "Error" or "Warning".
    pub level: String,
    pub agent_metadata: Option<AgentErrorMetadata>,
}

/// An earlier version of an error record, and what moved it on.
#[derive(Debug, Clone)]
pub struct ErrorVersion {
    pub version: u32,
    pub timestamp: Timestamp,
    pub message: String,
    pub diff: Option<String>,
}

/// A tracked error, with the versions it went through.
#[derive(Debug, Clone)]
pub struct ErrorRecord {
    pub id: String,
    pub timestamp: Timestamp,
    pub version: u32,
    pub status: ErrorStatus,
    pub detail: ProjectError,
    pub history: Vec<ErrorVersion>,
}

/// The files of the agent for one project.
pub struct AgentManager {
    root_path: String,
}

impl AgentManager {
    /// The project root the manager works in.
    pub closed spec fn root_spec(&self) -> Seq<char> {
        self.root_path@
    }

    /// The agent folder: `<root>/.agent`.
    pub open spec fn agent_dir_spec(&self) -> Seq<char> {
        join_path(self.root_spec(), ".agent"@)
    }

    /// The folder of error records: `<root>/.agent/errorfiles`.
    pub open spec fn errorfiles_dir_spec(&self) -> Seq<char> {
        join_path(self.agent_dir_spec(), "errorfiles"@)
    }

    /// The file holding version `version` of the record `id`:
    /// `<errorfiles>/v<version>/<id>.json`.
    pub open spec fn record_path_spec(&self, version: u32, id: Seq<char>) -> Seq<char> {
        join_path(join_path(self.errorfiles_dir_spec(), "v"@ + decimal(version as nat)), id + ".json"@)
    }

    /// A manager for the project at `root`.
    pub fn new(root: &str) -> (m: Self)
        ensures
            m.root_spec() == root@,
    {
        AgentManager { root_path: root.to_owned() }
    }

    /// The project root.
    pub fn root_path(&self) -> (r: &str)
        ensures
            r@ == self.root_spec(),
    {
        self.root_path.as_str()
    }

    /// The agent folder of the project.
    pub fn agent_dir(&self) -> (p: String)
        ensures
            p@ == self.agent_dir_spec(),
    {
        path_join(self.root_path.as_str(), ".agent")
    }

    /// The folder of error records.
    pub fn errorfiles_dir(&self) -> (p: String)
        ensures
            p@ == self.errorfiles_dir_spec(),
    {
        let a = self.agent_dir();
        path_join(a.as_str(), "errorfiles")
    }

    /// The file a record is written to: one folder per version.
    pub fn record_path(&self, record: &ErrorRecord) -> (p: String)
        ensures
            p@ == self.record_path_spec(record.version, record.id@),
    {
        let dir = self.errorfiles_dir();
        let mut v = String::new();
        push_str(&mut v, "v");
        push_decimal(&mut v, record.version as u64);
        assert(v@ == "v"@ + decimal(record.version as nat)) by {
            reveal_strlit("v");
            assert(Seq::<char>::empty() + "v"@ == "v"@);
        }
        let version_dir = path_join(dir.as_str(), v.as_str());
        let mut file = record.id.clone();
        push_str(&mut file, ".json");
        path_join(version_dir.as_str(), file.as_str())
    }
}

/// Whether two reports are of the same error: same file, line and message.
pub open spec fn same_error(a: ProjectError, b: ProjectError) -> bool {
    a.file@ == b.file@ && a.line == b.line && a.message@ == b.message@
}

/// Whether `i` is the first of `records` that reports the same error as `e`.
pub open spec fn is_first_duplicate(records: Seq<ErrorRecord>, e: ProjectError, i: int) -> bool {
    &&& 0 <= i < records.len()
    &&& same_error(records[i].detail, e)
    &&& forall|j: int| 0 <= j < i ==> !same_error(#[trigger] records[j].detail, e)
}

/// The id of the first record that reports the same error as `error`.
pub fn find_duplicate(records: &Vec<ErrorRecord>, error: &ProjectError) -> (r: Option<String>)
    ensures
        match r {
            Some(id) => exists|i: int| is_first_duplicate(records@, *error, i) && records@[i].id@ == id@,
            None => forall|i: int| 0 <= i < records@.len() ==> !same_error(#[trigger] records@[i].detail, *error),
        },
{
    let mut i: usize = 0;
    while i < records.len()
        invariant
            i <= records@.len(),
            forall|j: int| 0 <= j < i ==> !same_error(#[trigger] records@[j].detail, *error),
        decreases records.len() - i,
    {
        let d = &records[i].detail;
        if str_eq(d.file.as_str(), error.file.as_str()) && d.line == error.line
            && str_eq(d.message.as_str(), error.message.as_str()) {
            assert(is_first_duplicate(records@, *error, i as int));
            return Some(records[i].id.clone());
        }
        i = i + 1;
    }
    None
}

/// Whether `s` is the text of a random (version 4) UUID as `Uuid::to_string`
/// writes it: 36 characters, hyphens at 8, 13, 18 and 23, lowercase hex
/// digits elsewhere, version digit `4` and variant digit `8`, `9`, `a` or `b`.
pub open spec fn is_v4_uuid_text(s: Seq<char>) -> bool {
    &&& s.len() == 36
    &&& forall|i: int| 0 <= i < 36 ==> (
            if i == 8 || i == 13 || i == 18 || i == 23 {
                #[trigger] s[i] == '-'
            } else {
                ('0' <= s[i] <= '9') || ('a' <= s[i] <= 'f')
            })
    &&& s[14] == '4'
    &&& (s[19] == '8' || s[19] == '9' || s[19] == 'a' || s[19] == 'b')
}

/// `uuid::Uuid::new_v4().to_string()`: a fresh random id in hyphenated
/// lowercase form. Which id comes out is left open; the call panics only
/// where the operating system yields no random bytes.
#[verifier::external_body]
fn new_error_id() -> (id: String)
    ensures
        is_v4_uuid_text(id@),
{
    uuid::Uuid::new_v4().to_string()
}

/// The answer to a report of an error.
#[derive(Debug, Clone)]
pub enum ReportOutcome {
    /// The same error is already tracked under this id; nothing is written.
    Existing(String),
    /// A new record, to be written; its id is the answer.
    Recorded(ErrorRecord),
}

/// Whether `r` is a first record of `error`, made at `now` under the id `id`.
pub open spec fn is_new_record(r: ErrorRecord, error: ProjectError, now: Timestamp) -> bool {
    &&& is_v4_uuid_text(r.id@)
    &&& r.timestamp == now
    &&& r.version == 1
    &&& r.status == ErrorStatus::Active
    &&& r.detail == error
    &&& r.history@.len() == 0
}

impl AgentManager {
    /// Reports `error`: if one of the `active` records reports the same
    /// error, the first such record's id; else a new active record at
    /// version 1, with a fresh id.
    pub fn report_project_error(&self, active: &Vec<ErrorRecord>, error: ProjectError, now: Timestamp) -> (r: ReportOutcome)
        ensures
            match r {
                ReportOutcome::Existing(id) => exists|i: int|
                    is_first_duplicate(active@, error, i) && active@[i].id@ == id@,
                ReportOutcome::Recorded(rec) =>
                    (forall|i: int| 0 <= i < active@.len() ==> !same_error(#[trigger] active@[i].detail, error))
                    && is_new_record(rec, error, now),
            },
    {
        match find_duplicate(active, &error) {
            Some(id) => ReportOutcome::Existing(id),
            None => {
                let id = new_error_id();
                ReportOutcome::Recorded(ErrorRecord {
                    id,
                    timestamp: now,
                    version: 1,
                    status: ErrorStatus::Active,
                    detail: error,
                    history: Vec::new(),
                })
            },
        }
    }

    /// Reports an error known only by its message: file "unknown", line and
    /// column 0, no context, level "Error".
    pub fn report_error(&self, active: &Vec<ErrorRecord>, message: String, now: Timestamp) -> (r: ReportOutcome)
        ensures
            match r {
                ReportOutcome::Existing(id) => exists|i: int|
                    0 <= i < active@.len() && active@[i].detail.file@ == "unknown"@
                    && active@[i].detail.line == 0 && active@[i].detail.message@ == message@
                    && active@[i].id@ == id@,
                ReportOutcome::Recorded(rec) =>
                    is_v4_uuid_text(rec.id@) && rec.timestamp == now && rec.version == 1
                    && rec.status == ErrorStatus::Active && rec.history@.len() == 0
                    && rec.detail.file@ == "unknown"@ && rec.detail.line == 0 && rec.detail.column == 0
                    && rec.detail.message == message && rec.detail.code_context@ == ""@
                    && rec.detail.level@ == "Error"@ && rec.detail.agent_metadata is None
                    && forall|i: int| 0 <= i < active@.len() ==> !(
                        active@[i].detail.file@ == "unknown"@ && #[trigger] active@[i].detail.line == 0
                        && active@[i].detail.message@ == message@),
            },
    {
        let error = ProjectError {
            file: "unknown".to_owned(),
            line: 0,
            column: 0,
            message,
            code_context: "".to_owned(),
            level: "Error".to_owned(),
            agent_metadata: None,
        };
        self.report_project_error(active, error, now)
    }
}

/// Whether `after` is `before` resolved at `now` with `message` and `diff`:
/// an active record turns resolved one version later, its old version
/// appended to the history; a resolved record stays as it is.
pub open spec fn resolves_to(
    before: ErrorRecord,
    message: String,
    diff: Option<String>,
    now: Timestamp,
    after: ErrorRecord,
) -> bool {
    &&& after.id == before.id
    &&& after.timestamp == before.timestamp
    &&& after.detail == before.detail
    &&& if before.status == ErrorStatus::Active {
        &&& after.status == ErrorStatus::Resolved
        &&& after.version == before.version + 1
        &&& after.history@ == before.history@.push(
            ErrorVersion { version: before.version, timestamp: now, message, diff },
        )
    } else {
        &&& after.status == before.status
        &&& after.version == before.version
        &&& after.history@ == before.history@
    }
}

/// Marks `record` resolved by `message` (and the change `diff`), at `now`.
pub fn resolve_record(record: ErrorRecord, message: String, diff: Option<String>, now: Timestamp) -> (r: ErrorRecord)
    requires
        record.status == ErrorStatus::Active ==> record.version < u32::MAX,
    ensures
        resolves_to(record, message, diff, now, r),
{
    let mut record = record;
    if let ErrorStatus::Active = record.status {
        record.status = ErrorStatus::Resolved;
        let history_version = record.version;
        record.version = record.version + 1;
        record.history.push(ErrorVersion { version: history_version, timestamp: now, message, diff });
    }
    record
}

/// Resolving a record a second time changes nothing: the first resolution
/// is the one its history keeps.
pub proof fn law_resolve_idempotent(
    r0: ErrorRecord,
    r1: ErrorRecord,
    r2: ErrorRecord,
    m1: String,
    d1: Option<String>,
    t1: Timestamp,
    m2: String,
    d2: Option<String>,
    t2: Timestamp,
)
    requires
        resolves_to(r0, m1, d1, t1, r1),
        resolves_to(r1, m2, d2, t2, r2),
    ensures
        r2.status == ErrorStatus::Resolved,
        r2.id == r1.id,
        r2.version == r1.version,
        r2.history@ == r1.history@,
        r2.detail == r1.detail,
        r0.status == ErrorStatus::Active ==> r2.version == r0.version + 1
            && r2.history@.len() == r0.history@.len() + 1,
{
}

/// The records among `records` that are still active, in order.
pub open spec fn active_of(records: Seq<ErrorRecord>) -> Seq<ErrorRecord>
    decreases records.len(),
{
    if records.len() == 0 {
        Seq::empty()
    } else {
        let rest = active_of(records.drop_last());
        if records.last().status == ErrorStatus::Active {
            rest.push(records.last())
        } else {
            rest
        }
    }
}

/// Keeps the active records, in order.
pub fn active_records(records: Vec<ErrorRecord>) -> (active: Vec<ErrorRecord>)
    ensures
        active@ == active_of(records@),
{
    let ghost orig = records@;
    assert(orig.len() == records.len());
    let mut rest = records;
    let mut active: Vec<ErrorRecord> = Vec::new();
    let mut k: usize = 0;
    while rest.len() > 0
        invariant
            k + rest@.len() == orig.len(),
            orig.len() <= usize::MAX,
            orig == orig.take(k as int) + rest@,
            active@ == active_of(orig.take(k as int)),
        decreases rest@.len(),
    {
        let ghost before = rest@;
        let r = rest.remove(0);
        assert(orig.take(k + 1).drop_last() =~= orig.take(k as int));
        assert(orig.take(k + 1).last() == r) by {
            assert(orig[k as int] == before[0]);
        }
        assert(orig =~= orig.take(k + 1) + rest@) by {
            assert(rest@ =~= before.subrange(1, before.len() as int));
        }
        if let ErrorStatus::Active = r.status {
            active.push(r);
        }
        k = k + 1;
    }
    assert(orig.take(k as int) =~= orig);
    active
}

/// Whether `after` is `before` resolved at `now` by a fix described by
/// `message` and `diff`.
pub open spec fn resolved_by(
    before: ErrorRecord,
    after: ErrorRecord,
    message: Seq<char>,
    diff: Option<Seq<char>>,
    now: Timestamp,
) -> bool {
    &&& after.history@.len() > 0
    &&& resolves_to(before, after.history@.last().message, after.history@.last().diff, now, after)
    &&& after.history@.last().message@ == message
    &&& match after.history@.last().diff {
        Some(d) => diff == Some(d@),
        None => diff is None,
    }
}

/// Resolves every active record among `records` (as the walk of the error
/// folder finds them) at `now`: the records to write back, in order.
pub fn resolve_active_records(
    records: Vec<ErrorRecord>,
    message: &str,
    diff: &Option<String>,
    now: Timestamp,
) -> (out: Vec<ErrorRecord>)
    requires
        forall|i: int| 0 <= i < records@.len() && (#[trigger] records@[i]).status == ErrorStatus::Active
            ==> records@[i].version < u32::MAX,
    ensures
        out@.len() == active_of(records@).len(),
        forall|i: int| 0 <= i < out@.len() ==> #[trigger] resolved_by(
            active_of(records@)[i],
            out@[i],
            message@,
            crate::bench_config::opt_view(*diff),
            now,
        ),
{
    let active = active_records(records);
    proof {
        lemma_active_of_active(records@);
    }
    let ghost dv = crate::bench_config::opt_view(*diff);
    let mut out: Vec<ErrorRecord> = Vec::new();
    let ghost act = active@;
    let mut rest = active;
    let mut k: usize = 0;
    assert(act.len() == rest.len());
    while rest.len() > 0
        invariant
            k + rest@.len() == act.len(),
            act.len() <= usize::MAX,
            act == active_of(records@),
            act == act.take(k as int) + rest@,
            forall|i: int| 0 <= i < act.len() ==> (#[trigger] act[i]).status == ErrorStatus::Active
                && act[i].version < u32::MAX,
            dv == crate::bench_config::opt_view(*diff),
            out@.len() == k,
            forall|i: int| 0 <= i < k ==> #[trigger] resolved_by(act[i], out@[i], message@, dv, now),
        decreases rest@.len(),
    {
        let ghost before = rest@;
        let r = rest.remove(0);
        assert(r == act[k as int]) by {
            assert(act[k as int] == (act.take(k as int) + before)[k as int]);
        }
        assert(act =~= act.take(k + 1) + rest@);
        let d = match diff {
            Some(x) => Some(x.clone()),
            None => None,
        };
        let m = message.to_owned();
        let resolved = resolve_record(r, m, d, now);
        assert(resolved_by(r, resolved, message@, dv, now));
        let ghost out_before = out@;
        out.push(resolved);
        assert forall|i: int| 0 <= i < k + 1 implies #[trigger] resolved_by(act[i], out@[i], message@, dv, now) by {
            if i < k {
                assert(out@[i] == out_before[i]);
            } else {
                assert(out@[i] == resolved);
            }
        }
        k = k + 1;
    }
    out
}

proof fn lemma_active_of_active(records: Seq<ErrorRecord>)
    requires
        forall|i: int| 0 <= i < records.len() && (#[trigger] records[i]).status == ErrorStatus::Active
            ==> records[i].version < u32::MAX,
    ensures
        forall|i: int| 0 <= i < active_of(records).len() ==> (#[trigger] active_of(records)[i]).status
            == ErrorStatus::Active && active_of(records)[i].version < u32::MAX,
    decreases records.len(),
{
    if records.len() > 0 {
        let init = records.drop_last();
        assert forall|i: int| 0 <= i < init.len() && (#[trigger] init[i]).status == ErrorStatus::Active
            implies init[i].version < u32::MAX by {
            assert(init[i] == records[i]);
        }
        lemma_active_of_active(init);
    }
}

/// Reporting an error that was just recorded finds that record: once a new
/// record of `error` is among the active records, the same error is
/// answered with its id.
pub proof fn law_report_after_record_finds_it(active: Seq<ErrorRecord>, error: ProjectError, rec: ErrorRecord, now: Timestamp)
    requires
        forall|i: int| 0 <= i < active.len() ==> !same_error(#[trigger] active[i].detail, error),
        is_new_record(rec, error, now),
    ensures
        is_first_duplicate(active.push(rec), error, active.len() as int),
        active.push(rec)[active.len() as int].id == rec.id,
{
    let a2 = active.push(rec);
    assert forall|j: int| 0 <= j < active.len() implies !same_error(#[trigger] a2[j].detail, error) by {
        assert(a2[j] == active[j]);
    }
}

} // verus!
