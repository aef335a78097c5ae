use vstd::prelude::*;
use crate::text::{
    chars_of, contains, decimal, has_prefix, has_substring, last_segment, last_segment_chars,
    lossy_text, cstr_prefix, push_chars, push_decimal, starts_with, trim, trim_chars,
    vec_to_string, first_word, first_word_chars, same_text,
};

verus! {

/// A process execution as the policy sees it. `comm` and `filename` are NUL-terminated
/// byte buffers; `risk_score` is the score in whole points, from 0 to 10.
pub struct ExecEvent {
    pub pid: u32,
    pub uid: u32,
    pub gid: u32,
    pub timestamp_ns: u64,
    pub comm: Vec<u8>,
    pub filename: Vec<u8>,
    pub argc: u32,
    pub risk_score: u8,
}

/// A finding raised by one policy rule.
pub struct Alert {
    pub severity: u8,
    pub category: String,
    pub description: String,
    pub timestamp_ns: u64,
}

/// An alert with its texts as character sequences.
pub struct AlertView {
    pub severity: u8,
    pub category: Seq<char>,
    pub description: Seq<char>,
    pub timestamp_ns: u64,
}

impl View for Alert {
    type V = AlertView;

    open spec fn view(&self) -> AlertView {
        AlertView {
            severity: self.severity,
            category: self.category@,
            description: self.description@,
            timestamp_ns: self.timestamp_ns,
        }
    }
}

/// The texts of a list of string slices.
pub open spec fn texts(items: Seq<&str>) -> Seq<Seq<char>> {
    items.map_values(|x: &str| x@)
}

/// The views of a list of alerts.
pub open spec fn alert_views(alerts: Seq<Alert>) -> Seq<AlertView> {
    alerts.map_values(|a: Alert| a@)
}

/// The binaries that the policy bans.
pub open spec fn default_banned() -> Seq<Seq<char>> {
    seq!["nc"@, "ncat"@, "nmap"@, "meterpreter"@]
}

/// The binaries that the policy bans, matched against the name of the executed program.
pub fn get_banned_binaries() -> (list: Vec<&'static str>)
    ensures
        texts(list@) == default_banned(),
{
    let mut list: Vec<&'static str> = Vec::new();
    list.push("nc");
    list.push("ncat");
    list.push("nmap");
    list.push("meterpreter");
    assert(texts(list@) =~= default_banned());
    list
}

/// The name of the executed program read from the command part of the file name: the part
/// after the last `'/'` of its first space-separated word.
pub open spec fn command_name(filename: Seq<char>) -> Seq<char> {
    last_segment(first_word(filename))
}

/// The name of the executed program read from the whole file name (whose path may hold
/// spaces): the part after its last `'/'`.
pub open spec fn file_base_name(filename: Seq<char>) -> Seq<char> {
    last_segment(filename)
}

/// The executed program is one of the banned binaries: a banned name equals the program name,
/// read either from the command part of the file name or from the whole file name.
pub open spec fn is_banned(filename: Seq<char>, banned: Seq<Seq<char>>) -> bool {
    exists|k: int|
        0 <= k < banned.len() && (command_name(filename) == #[trigger] banned[k]
            || file_base_name(filename) == banned[k])
}

/// A non-root user (uid 1000 or more) runs a file under `/tmp/` that is not banned.
pub open spec fn is_tmp_execution(uid: u32, filename: Seq<char>, banned: Seq<Seq<char>>) -> bool {
    uid >= 1000 && has_prefix(filename, "/tmp/"@) && !is_banned(filename, banned)
}

/// The trimmed process name is not empty, does not occur in the last path segment of the
/// file name, and names no shell (holds neither `bash` nor `sh`).
pub open spec fn is_comm_mismatch(comm: Seq<char>, filename: Seq<char>) -> bool {
    let c = trim(comm);
    &&& c.len() > 0
    &&& !has_substring(last_segment(filename), c)
    &&& !has_substring(c, "bash"@)
    &&& !has_substring(c, "sh"@)
}

/// The file name holds both `bash` and `-i`.
pub open spec fn is_reverse_shell(filename: Seq<char>) -> bool {
    has_substring(filename, "bash"@) && has_substring(filename, "-i"@)
}

/// The points of all rules that fire, before the cap at 10.
pub open spec fn raw_score(uid: u32, comm: Seq<char>, filename: Seq<char>, banned: Seq<Seq<char>>) -> nat {
    (if is_banned(filename, banned) { 10nat } else { 0nat }) + (if is_tmp_execution(
        uid,
        filename,
        banned,
    ) {
        7nat
    } else {
        0nat
    }) + (if is_comm_mismatch(comm, filename) {
        3nat
    } else {
        0nat
    }) + (if is_reverse_shell(filename) {
        8nat
    } else {
        0nat
    })
}

/// The risk score: the points of the rules that fire, capped at 10.
pub open spec fn risk_score_of(uid: u32, comm: Seq<char>, filename: Seq<char>, banned: Seq<Seq<char>>) -> nat {
    let r = raw_score(uid, comm, filename, banned);
    if r > 10 {
        10
    } else {
        r
    }
}

/// The alerts of the rules that fire, in rule order.
pub open spec fn expected_alerts(
    uid: u32,
    timestamp_ns: u64,
    comm: Seq<char>,
    filename: Seq<char>,
    banned: Seq<Seq<char>>,
) -> Seq<AlertView> {
    let uid_text = decimal(uid as nat);
    let a1 = if is_banned(filename, banned) {
        seq![
            AlertView {
                severity: 10,
                category: "BANNED_BINARY"@,
                description: "UID "@ + uid_text + " banned: "@ + filename,
                timestamp_ns,
            },
        ]
    } else {
        Seq::empty()
    };
    let a2 = if is_tmp_execution(uid, filename, banned) {
        seq![
            AlertView {
                severity: 7,
                category: "TMP_EXECUTION"@,
                description: "UID "@ + uid_text + " exec from /tmp: "@ + filename,
                timestamp_ns,
            },
        ]
    } else {
        Seq::empty()
    };
    let a3 = if is_comm_mismatch(comm, filename) {
        seq![
            AlertView {
                severity: 5,
                category: "COMM_MISMATCH"@,
                description: "Comm '"@ + trim(comm) + "' != file '"@ + last_segment(filename) + "'"@,
                timestamp_ns,
            },
        ]
    } else {
        Seq::empty()
    };
    let a4 = if is_reverse_shell(filename) {
        seq![
            AlertView {
                severity: 9,
                category: "REVERSE_SHELL"@,
                description: "Possible reverse shell: "@ + filename,
                timestamp_ns,
            },
        ]
    } else {
        Seq::empty()
    };
    a1 + a2 + a3 + a4
}


/// Whether the program that `filename` executes is one of the banned binaries.
fn find_banned(filename: &Vec<char>, banned: &Vec<&str>) -> (r: bool)
    ensures
        r == is_banned(filename@, texts(banned@)),
{
    let command = last_segment_chars(&first_word_chars(filename));
    let base = last_segment_chars(filename);
    let mut k: usize = 0;
    while k < banned.len()
        invariant
            command@ == command_name(filename@),
            base@ == file_base_name(filename@),
            k <= banned@.len(),
            forall|j: int|
                0 <= j < k ==> command_name(filename@) != #[trigger] texts(banned@)[j]
                    && file_base_name(filename@) != texts(banned@)[j],
        decreases banned@.len() - k,
    {
        let name = chars_of(banned[k]);
        if same_text(&command, &name) || same_text(&base, &name) {
            assert(command_name(filename@) == texts(banned@)[k as int] || file_base_name(
                filename@,
            ) == texts(banned@)[k as int]);
            return true;
        }
        k = k + 1;
    }
    false
}

/// A text made of a literal.
fn text_of(t: &str) -> (s: String)
    ensures
        s@ == t@,
{
    let mut s = String::new();
    s.append(t);
    assert(s@ =~= t@);
    s
}

/// Applies the policy rules to a decoded process name and file name: the capped score and
/// the alerts of the rules that fire.
pub fn assess(uid: u32, timestamp_ns: u64, comm: &str, filename: &str, banned: &Vec<&str>) -> (r: (
    u8,
    Vec<Alert>,
))
    ensures
        r.0 as nat == risk_score_of(uid, comm@, filename@, texts(banned@)),
        alert_views(r.1@) == expected_alerts(uid, timestamp_ns, comm@, filename@, texts(banned@)),
{
    let f = chars_of(filename);
    let banned_hit = find_banned(&f, banned);
    let tmp_hit = uid >= 1000 && starts_with(&f, &chars_of("/tmp/")) && !banned_hit;
    let c = chars_of(comm);
    let comm_name = trim_chars(&c);
    let file_name = last_segment_chars(&f);
    let mismatch_hit = comm_name.len() > 0 && !contains(&file_name, &comm_name) && !contains(
        &comm_name,
        &chars_of("bash"),
    ) && !contains(&comm_name, &chars_of("sh"));
    let shell_hit = contains(&f, &chars_of("bash")) && contains(&f, &chars_of("-i"));

    let mut score: u8 = 0;
    let mut alerts: Vec<Alert> = Vec::new();
    let ghost a1: Seq<AlertView> = Seq::empty();
    let ghost a2: Seq<AlertView> = Seq::empty();
    let ghost a3: Seq<AlertView> = Seq::empty();
    let ghost a4: Seq<AlertView> = Seq::empty();
    if banned_hit {
        score = 10;
        let mut d = text_of("UID ");
        push_decimal(&mut d, uid);
        d.append(" banned: ");
        d.append(filename);
        let a = Alert {
            severity: 10,
            category: text_of("BANNED_BINARY"),
            description: d,
            timestamp_ns,
        };
        proof {
            a1 = seq![a@];
        }
        alerts.push(a);
    }
    assert(alert_views(alerts@) =~= a1);
    if tmp_hit {
        score = score + 7;
        let mut d = text_of("UID ");
        push_decimal(&mut d, uid);
        d.append(" exec from /tmp: ");
        d.append(filename);
        let a = Alert {
            severity: 7,
            category: text_of("TMP_EXECUTION"),
            description: d,
            timestamp_ns,
        };
        proof {
            a2 = seq![a@];
        }
        alerts.push(a);
    }
    assert(alert_views(alerts@) =~= a1 + a2);
    if mismatch_hit {
        score = score + 3;
        let mut d = text_of("Comm '");
        push_chars(&mut d, &comm_name);
        d.append("' != file '");
        push_chars(&mut d, &file_name);
        d.append("'");
        let a = Alert {
            severity: 5,
            category: text_of("COMM_MISMATCH"),
            description: d,
            timestamp_ns,
        };
        proof {
            a3 = seq![a@];
        }
        alerts.push(a);
    }
    assert(alert_views(alerts@) =~= a1 + a2 + a3);
    if shell_hit {
        score = score + 8;
        let mut d = text_of("Possible reverse shell: ");
        d.append(filename);
        let a = Alert {
            severity: 9,
            category: text_of("REVERSE_SHELL"),
            description: d,
            timestamp_ns,
        };
        proof {
            a4 = seq![a@];
        }
        alerts.push(a);
    }
    assert(alert_views(alerts@) =~= a1 + a2 + a3 + a4);
    if score > 10 {
        score = 10;
    }
    (score, alerts)
}

/// The process name of an event, decoded.
pub open spec fn comm_text(event: ExecEvent) -> Seq<char> {
    lossy_text(cstr_prefix(event.comm@))
}

/// The file name of an event, decoded.
pub open spec fn filename_text(event: ExecEvent) -> Seq<char> {
    lossy_text(cstr_prefix(event.filename@))
}

/// Scores an event against the policy: the event comes back with its risk score set, and
/// with the alerts of the rules that fire. Nothing else of the event changes.
pub fn process_event(event: ExecEvent) -> (r: (ExecEvent, Vec<Alert>))
    ensures
        r.0.risk_score as nat == risk_score_of(
            event.uid,
            comm_text(event),
            filename_text(event),
            default_banned(),
        ),
        alert_views(r.1@) == expected_alerts(
            event.uid,
            event.timestamp_ns,
            comm_text(event),
            filename_text(event),
            default_banned(),
        ),
        r.0.pid == event.pid,
        r.0.uid == event.uid,
        r.0.gid == event.gid,
        r.0.timestamp_ns == event.timestamp_ns,
        r.0.comm@ == event.comm@,
        r.0.filename@ == event.filename@,
        r.0.argc == event.argc,
{
    let filename = vec_to_string(event.filename.as_slice());
    let comm = vec_to_string(event.comm.as_slice());
    let banned = get_banned_binaries();
    let (score, alerts) = assess(event.uid, event.timestamp_ns, comm.as_str(), filename.as_str(), &banned);
    let mut out = event;
    out.risk_score = score;
    (out, alerts)
}


/// The severity that the rule table gives each alert category.
pub open spec fn severity_of_category(category: Seq<char>) -> u8 {
    if category == "BANNED_BINARY"@ {
        10
    } else if category == "TMP_EXECUTION"@ {
        7
    } else if category == "COMM_MISMATCH"@ {
        5
    } else if category == "REVERSE_SHELL"@ {
        9
    } else {
        0
    }
}

proof fn lemma_categories_differ()
    ensures
        "BANNED_BINARY"@ != "TMP_EXECUTION"@,
        "BANNED_BINARY"@ != "COMM_MISMATCH"@,
        "BANNED_BINARY"@ != "REVERSE_SHELL"@,
        "TMP_EXECUTION"@ != "COMM_MISMATCH"@,
        "TMP_EXECUTION"@ != "REVERSE_SHELL"@,
        "COMM_MISMATCH"@ != "REVERSE_SHELL"@,
{
    reveal_strlit("BANNED_BINARY");
    reveal_strlit("TMP_EXECUTION");
    reveal_strlit("COMM_MISMATCH");
    reveal_strlit("REVERSE_SHELL");
    assert("BANNED_BINARY"@[0] != "TMP_EXECUTION"@[0]);
    assert("BANNED_BINARY"@[0] != "COMM_MISMATCH"@[0]);
    assert("BANNED_BINARY"@[0] != "REVERSE_SHELL"@[0]);
    assert("TMP_EXECUTION"@[0] != "COMM_MISMATCH"@[0]);
    assert("TMP_EXECUTION"@[0] != "REVERSE_SHELL"@[0]);
    assert("COMM_MISMATCH"@[0] != "REVERSE_SHELL"@[0]);
}

/// The risk score never exceeds 10.
pub proof fn law_score_capped(uid: u32, comm: Seq<char>, filename: Seq<char>, banned: Seq<Seq<char>>)
    ensures
        risk_score_of(uid, comm, filename, banned) <= 10,
{
}

/// Executing a banned binary always scores the maximum, 10, and its alert, of severity 10,
/// comes first.
pub proof fn law_banned_scores_ten(
    uid: u32,
    timestamp_ns: u64,
    comm: Seq<char>,
    filename: Seq<char>,
    banned: Seq<Seq<char>>,
)
    requires
        is_banned(filename, banned),
    ensures
        risk_score_of(uid, comm, filename, banned) == 10,
        expected_alerts(uid, timestamp_ns, comm, filename, banned).len() >= 1,
        expected_alerts(uid, timestamp_ns, comm, filename, banned)[0].category == "BANNED_BINARY"@,
        expected_alerts(uid, timestamp_ns, comm, filename, banned)[0].severity == 10,
{
}

/// An event scores 0 exactly when no rule raises an alert.
pub proof fn law_zero_score_iff_no_alert(
    uid: u32,
    timestamp_ns: u64,
    comm: Seq<char>,
    filename: Seq<char>,
    banned: Seq<Seq<char>>,
)
    ensures
        (risk_score_of(uid, comm, filename, banned) == 0) == (expected_alerts(
            uid,
            timestamp_ns,
            comm,
            filename,
            banned,
        ).len() == 0),
{
}

/// Every alert carries the event's timestamp and the severity that the rule table gives its
/// category, and no category is raised twice for one event.
pub proof fn law_alerts_follow_table(
    uid: u32,
    timestamp_ns: u64,
    comm: Seq<char>,
    filename: Seq<char>,
    banned: Seq<Seq<char>>,
)
    ensures
        ({
            let a = expected_alerts(uid, timestamp_ns, comm, filename, banned);
            &&& a.len() <= 4
            &&& forall|i: int|
                0 <= i < a.len() ==> #[trigger] a[i].timestamp_ns == timestamp_ns
                    && a[i].severity == severity_of_category(a[i].category)
            &&& forall|i: int, j: int|
                0 <= i < j < a.len() ==> #[trigger] a[i].category != #[trigger] a[j].category
        }),
{
    lemma_categories_differ();
}

/// A banned binary never also counts as an execution from `/tmp/`: the two alerts exclude
/// each other.
pub proof fn law_banned_excludes_tmp(
    uid: u32,
    timestamp_ns: u64,
    comm: Seq<char>,
    filename: Seq<char>,
    banned: Seq<Seq<char>>,
)
    ensures
        ({
            let a = expected_alerts(uid, timestamp_ns, comm, filename, banned);
            forall|i: int, j: int|
                0 <= i < a.len() && 0 <= j < a.len() && #[trigger] a[i].category
                    == "BANNED_BINARY"@ ==> #[trigger] a[j].category != "TMP_EXECUTION"@
        }),
{
    lemma_categories_differ();
}

/// The score of an event depends on its user, process name and file name alone: its pid,
/// gid, timestamp, argument count and former score play no part.
pub proof fn law_score_depends_on_identity_and_names(e1: ExecEvent, e2: ExecEvent)
    requires
        e1.uid == e2.uid,
        e1.comm@ == e2.comm@,
        e1.filename@ == e2.filename@,
    ensures
        risk_score_of(e1.uid, comm_text(e1), filename_text(e1), default_banned())
            == risk_score_of(e2.uid, comm_text(e2), filename_text(e2), default_banned()),
{
}


/// The alert list holds an alert of this category and severity.
pub open spec fn has_alert(alerts: Seq<AlertView>, category: Seq<char>, severity: u8) -> bool {
    exists|i: int| 0 <= i < alerts.len() && #[trigger] alerts[i].category == category && alerts[i].severity == severity
}

/// The alert list holds no alert of this category.
pub open spec fn lacks_alert(alerts: Seq<AlertView>, category: Seq<char>) -> bool {
    forall|i: int| 0 <= i < alerts.len() ==> #[trigger] alerts[i].category != category
}

/// The points that the rule table gives an alert category.
pub open spec fn category_points(category: Seq<char>) -> nat {
    if category == "BANNED_BINARY"@ {
        10
    } else if category == "TMP_EXECUTION"@ {
        7
    } else if category == "COMM_MISMATCH"@ {
        3
    } else if category == "REVERSE_SHELL"@ {
        8
    } else {
        0
    }
}

/// The points of all alerts in a list.
pub open spec fn total_points(alerts: Seq<AlertView>) -> nat
    decreases alerts.len(),
{
    if alerts.len() == 0 {
        0
    } else {
        category_points(alerts[0].category) + total_points(alerts.drop_first())
    }
}

proof fn lemma_total_points_concat(x: Seq<AlertView>, y: Seq<AlertView>)
    ensures
        total_points(x + y) == total_points(x) + total_points(y),
    decreases x.len(),
{
    if x.len() > 0 {
        assert((x + y).drop_first() =~= x.drop_first() + y);
        lemma_total_points_concat(x.drop_first(), y);
    } else {
        assert(x + y =~= y);
    }
}

/// Position and shape of each rule's alert in the list: rules fire in a fixed order, each
/// adding one alert of its category, and no other alert is made.
proof fn lemma_alert_layout(
    uid: u32,
    timestamp_ns: u64,
    comm: Seq<char>,
    filename: Seq<char>,
    banned: Seq<Seq<char>>,
)
    ensures
        ({
            let a = expected_alerts(uid, timestamp_ns, comm, filename, banned);
            let n1: int = if is_banned(filename, banned) { 1 } else { 0 };
            let n2: int = if is_tmp_execution(uid, filename, banned) { 1 } else { 0 };
            let n3: int = if is_comm_mismatch(comm, filename) { 1 } else { 0 };
            let n4: int = if is_reverse_shell(filename) { 1 } else { 0 };
            &&& a.len() == n1 + n2 + n3 + n4
            &&& is_banned(filename, banned) ==> a[0].category == "BANNED_BINARY"@ && a[0].severity == 10
            &&& is_tmp_execution(uid, filename, banned) ==> a[n1].category == "TMP_EXECUTION"@
                && a[n1].severity == 7
            &&& is_comm_mismatch(comm, filename) ==> a[n1 + n2].category == "COMM_MISMATCH"@ && a[n1
                + n2].severity == 5
            &&& is_reverse_shell(filename) ==> a[n1 + n2 + n3].category == "REVERSE_SHELL"@ && a[n1
                + n2 + n3].severity == 9
            &&& !is_banned(filename, banned) ==> lacks_alert(a, "BANNED_BINARY"@)
            &&& !is_tmp_execution(uid, filename, banned) ==> lacks_alert(a, "TMP_EXECUTION"@)
            &&& !is_comm_mismatch(comm, filename) ==> lacks_alert(a, "COMM_MISMATCH"@)
            &&& !is_reverse_shell(filename) ==> lacks_alert(a, "REVERSE_SHELL"@)
            &&& total_points(a) == raw_score(uid, comm, filename, banned)
        }),
{
    lemma_categories_differ();
    let a = expected_alerts(uid, timestamp_ns, comm, filename, banned);
    let uid_text = decimal(uid as nat);
    let a1 = if is_banned(filename, banned) {
        seq![
            AlertView {
                severity: 10,
                category: "BANNED_BINARY"@,
                description: "UID "@ + uid_text + " banned: "@ + filename,
                timestamp_ns,
            },
        ]
    } else {
        Seq::empty()
    };
    let a2 = if is_tmp_execution(uid, filename, banned) {
        seq![
            AlertView {
                severity: 7,
                category: "TMP_EXECUTION"@,
                description: "UID "@ + uid_text + " exec from /tmp: "@ + filename,
                timestamp_ns,
            },
        ]
    } else {
        Seq::empty()
    };
    let a3 = if is_comm_mismatch(comm, filename) {
        seq![
            AlertView {
                severity: 5,
                category: "COMM_MISMATCH"@,
                description: "Comm '"@ + trim(comm) + "' != file '"@ + last_segment(filename) + "'"@,
                timestamp_ns,
            },
        ]
    } else {
        Seq::empty()
    };
    let a4 = if is_reverse_shell(filename) {
        seq![
            AlertView {
                severity: 9,
                category: "REVERSE_SHELL"@,
                description: "Possible reverse shell: "@ + filename,
                timestamp_ns,
            },
        ]
    } else {
        Seq::empty()
    };
    assert(a == a1 + a2 + a3 + a4);
    lemma_total_points_concat(a1 + a2 + a3, a4);
    lemma_total_points_concat(a1 + a2, a3);
    lemma_total_points_concat(a1, a2);
    if is_banned(filename, banned) {
        assert(a1.drop_first() =~= Seq::<AlertView>::empty());
    }
    if is_tmp_execution(uid, filename, banned) {
        assert(a2.drop_first() =~= Seq::<AlertView>::empty());
    }
    if is_comm_mismatch(comm, filename) {
        assert(a3.drop_first() =~= Seq::<AlertView>::empty());
    }
    if is_reverse_shell(filename) {
        assert(a4.drop_first() =~= Seq::<AlertView>::empty());
    }
    assert forall|i: int| 0 <= i < a.len() implies {
        &&& (a[i].category == "BANNED_BINARY"@ ==> is_banned(filename, banned))
        &&& (a[i].category == "TMP_EXECUTION"@ ==> is_tmp_execution(uid, filename, banned))
        &&& (a[i].category == "COMM_MISMATCH"@ ==> is_comm_mismatch(comm, filename))
        &&& (a[i].category == "REVERSE_SHELL"@ ==> is_reverse_shell(filename))
    } by {
        let n1: int = if is_banned(filename, banned) { 1 } else { 0 };
        let n2: int = if is_tmp_execution(uid, filename, banned) { 1 } else { 0 };
        let n3: int = if is_comm_mismatch(comm, filename) { 1 } else { 0 };
        if i < n1 {
            assert(a[i] == a1[i]);
        } else if i < n1 + n2 {
            assert(a[i] == a2[i - n1]);
        } else if i < n1 + n2 + n3 {
            assert(a[i] == a3[i - n1 - n2]);
        } else {
            assert(a[i] == a4[i - n1 - n2 - n3]);
        }
    }
}

/// The reverse-shell rule: a file name that holds both `bash` and `-i`, at any positions and
/// whatever follows them, raises the reverse-shell alert (severity 9) and scores at least 8;
/// a file name lacking either raises none.
pub proof fn law_reverse_shell_rule(
    uid: u32,
    timestamp_ns: u64,
    comm: Seq<char>,
    filename: Seq<char>,
    banned: Seq<Seq<char>>,
)
    ensures
        has_substring(filename, "bash"@) && has_substring(filename, "-i"@) ==> has_alert(
            expected_alerts(uid, timestamp_ns, comm, filename, banned),
            "REVERSE_SHELL"@,
            9,
        ) && risk_score_of(uid, comm, filename, banned) >= 8,
        !(has_substring(filename, "bash"@) && has_substring(filename, "-i"@)) ==> lacks_alert(
            expected_alerts(uid, timestamp_ns, comm, filename, banned),
            "REVERSE_SHELL"@,
        ),
{
    lemma_alert_layout(uid, timestamp_ns, comm, filename, banned);
    let a = expected_alerts(uid, timestamp_ns, comm, filename, banned);
    if has_substring(filename, "bash"@) && has_substring(filename, "-i"@) {
        let n1: int = if is_banned(filename, banned) { 1 } else { 0 };
        let n2: int = if is_tmp_execution(uid, filename, banned) { 1 } else { 0 };
        let n3: int = if is_comm_mismatch(comm, filename) { 1 } else { 0 };
        assert(a[n1 + n2 + n3].category == "REVERSE_SHELL"@);
    }
}

/// The `/tmp/` rule: a user with uid 1000 or more who runs a file whose name begins with
/// `/tmp/` (directly in `/tmp/` or in any directory below it) and whose program name is no
/// banned name raises the `/tmp/` alert (severity 7) and scores at least 7; otherwise no such
/// alert is raised.
pub proof fn law_tmp_execution_rule(
    uid: u32,
    timestamp_ns: u64,
    comm: Seq<char>,
    filename: Seq<char>,
    banned: Seq<Seq<char>>,
)
    ensures
        ({
            let not_banned = forall|k: int|
                0 <= k < banned.len() ==> #[trigger] banned[k] != last_segment(first_word(filename))
                    && banned[k] != last_segment(filename);
            let a = expected_alerts(uid, timestamp_ns, comm, filename, banned);
            &&& uid >= 1000 && has_prefix(filename, "/tmp/"@) && not_banned ==> has_alert(
                a,
                "TMP_EXECUTION"@,
                7,
            ) && risk_score_of(uid, comm, filename, banned) >= 7
            &&& !(uid >= 1000 && has_prefix(filename, "/tmp/"@) && not_banned) ==> lacks_alert(
                a,
                "TMP_EXECUTION"@,
            )
        }),
{
    lemma_alert_layout(uid, timestamp_ns, comm, filename, banned);
    let a = expected_alerts(uid, timestamp_ns, comm, filename, banned);
    let not_banned = forall|k: int|
        0 <= k < banned.len() ==> #[trigger] banned[k] != last_segment(first_word(filename))
            && banned[k] != last_segment(filename);
    assert(not_banned <==> !is_banned(filename, banned));
    if uid >= 1000 && has_prefix(filename, "/tmp/"@) && not_banned {
        let n1: int = if is_banned(filename, banned) { 1 } else { 0 };
        assert(a[n1].category == "TMP_EXECUTION"@);
    }
}

/// The process-name rule: when the trimmed process name is not empty, names no shell (holds
/// neither `bash` nor `sh`) and does not occur in the file's own name (the part after the last
/// `'/'`, whatever the directories hold), the mismatch alert (severity 5) is raised and its 3
/// points count; otherwise no such alert is raised.
pub proof fn law_comm_mismatch_rule(
    uid: u32,
    timestamp_ns: u64,
    comm: Seq<char>,
    filename: Seq<char>,
    banned: Seq<Seq<char>>,
)
    ensures
        ({
            let c = trim(comm);
            let fires = c.len() > 0 && !has_substring(c, "bash"@) && !has_substring(c, "sh"@)
                && !has_substring(last_segment(filename), c);
            let a = expected_alerts(uid, timestamp_ns, comm, filename, banned);
            &&& fires ==> has_alert(a, "COMM_MISMATCH"@, 5) && risk_score_of(
                uid,
                comm,
                filename,
                banned,
            ) >= 3
            &&& !fires ==> lacks_alert(a, "COMM_MISMATCH"@)
        }),
{
    lemma_alert_layout(uid, timestamp_ns, comm, filename, banned);
    let a = expected_alerts(uid, timestamp_ns, comm, filename, banned);
    if is_comm_mismatch(comm, filename) {
        let n1: int = if is_banned(filename, banned) { 1 } else { 0 };
        let n2: int = if is_tmp_execution(uid, filename, banned) { 1 } else { 0 };
        assert(a[n1 + n2].category == "COMM_MISMATCH"@);
    }
}

/// The banned-binary rule: when the program name, read from the command part of the file
/// name (the last `'/'`-segment of its first space-separated word, whatever arguments follow)
/// or from the whole file name (its last `'/'`-segment), equals a banned name, the score is 10
/// and the banned-binary alert (severity 10) comes first; otherwise no such alert is raised.
pub proof fn law_banned_binary_rule(
    uid: u32,
    timestamp_ns: u64,
    comm: Seq<char>,
    filename: Seq<char>,
    banned: Seq<Seq<char>>,
)
    ensures
        ({
            let hit = exists|k: int|
                0 <= k < banned.len() && (#[trigger] banned[k] == last_segment(first_word(filename))
                    || banned[k] == last_segment(filename));
            let a = expected_alerts(uid, timestamp_ns, comm, filename, banned);
            &&& hit ==> risk_score_of(uid, comm, filename, banned) == 10 && a.len() >= 1
                && a[0].category == "BANNED_BINARY"@ && a[0].severity == 10
            &&& !hit ==> lacks_alert(a, "BANNED_BINARY"@)
        }),
{
    lemma_alert_layout(uid, timestamp_ns, comm, filename, banned);
    let hit = exists|k: int|
        0 <= k < banned.len() && (#[trigger] banned[k] == last_segment(first_word(filename))
            || banned[k] == last_segment(filename));
    assert(hit <==> is_banned(filename, banned));
}

/// The score is the sum of the points of the alerts raised (banned binary 10, `/tmp/` 7,
/// process-name mismatch 3, reverse shell 8), capped at 10: every alert raised adds its
/// points, whichever other rules fire.
pub proof fn law_score_is_capped_sum_of_alert_points(
    uid: u32,
    timestamp_ns: u64,
    comm: Seq<char>,
    filename: Seq<char>,
    banned: Seq<Seq<char>>,
)
    ensures
        ({
            let t = total_points(expected_alerts(uid, timestamp_ns, comm, filename, banned));
            risk_score_of(uid, comm, filename, banned) == if t > 10 { 10 } else { t }
        }),
{
    lemma_alert_layout(uid, timestamp_ns, comm, filename, banned);
}

} // verus!
