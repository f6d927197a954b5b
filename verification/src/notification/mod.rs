//! Notifications: a bell, a completed-task sequence, or a long command that
//! finished (its prompt reappeared) in a tracked terminal's output.
use vstd::prelude::*;
use crate::text::{blank, decimal, decimal_text, is_blank, join, join_strings, lines_of, text_lines, texts};

verus! {

#[verifier::external_type_specification]
#[verifier::external_body]
pub struct ExRegex(regex::Regex);

#[verifier::external_type_specification]
#[verifier::external_body]
pub struct ExRegexError(regex::Error);

#[verifier::external_type_specification]
#[verifier::external_body]
pub struct ExInstant(std::time::Instant);

#[verifier::external_type_specification]
#[verifier::external_body]
pub struct ExSystemTime(std::time::SystemTime);

/// Whether `regex::Regex::new` accepts the pattern (its syntax is valid and
/// the compiled program fits the default size limit).
pub uninterp spec fn regex_compiles(pattern: Seq<char>) -> bool;

/// Whether the regex compiled from `pattern` matches somewhere in `text`
/// (`regex::Regex::is_match`).
pub uninterp spec fn regex_matches(pattern: Seq<char>, text: Seq<char>) -> bool;

/// A compiled regular expression together with the pattern it came from.
pub struct Matcher {
    source: String,
    regex: regex::Regex,
}

impl View for Matcher {
    type V = Seq<char>;

    closed spec fn view(&self) -> Seq<char> {
        self.source@
    }
}

/// Compiles `pattern` (`regex::Regex::new`); a matcher is returned exactly
/// when the pattern compiles, and it remembers that pattern.
#[verifier::external_body]
pub(crate) fn compile_matcher(pattern: &str) -> (r: Result<Matcher, regex::Error>)
    ensures
        r is Ok <==> regex_compiles(pattern@),
        r matches Ok(m) ==> m@ == pattern@,
{
    match regex::Regex::new(pattern) {
        Ok(regex) => Ok(Matcher { source: pattern.to_string(), regex }),
        Err(e) => Err(e),
    }
}

/// Whether the matcher matches somewhere in `text` (`regex::Regex::is_match`).
#[verifier::external_body]
pub(crate) fn matcher_is_match(m: &Matcher, text: &str) -> (b: bool)
    ensures
        b == regex_matches(m@, text@),
{
    m.regex.is_match(text)
}

/// The current instant of the monotonic clock (`Instant::now`); nothing is
/// stated of its value.
#[verifier::external_body]
fn instant_now() -> std::time::Instant {
    std::time::Instant::now()
}

/// Nanoseconds since `since` (`Instant::elapsed`, as `Duration::as_nanos`).
/// The value depends on the clock; a `Duration` holds at most `u64::MAX`
/// whole seconds, so the whole seconds fit a `u64`.
#[verifier::external_body]
fn nanos_since(since: &std::time::Instant) -> (n: u128)
    ensures
        n / 1_000_000_000 <= u64::MAX,
{
    since.elapsed().as_nanos()
}

/// The current wall-clock time (`SystemTime::now`); nothing is stated of it.
#[verifier::external_body]
fn system_now() -> std::time::SystemTime {
    std::time::SystemTime::now()
}

/// Whole seconds from the Unix epoch to `t` (`SystemTime::duration_since`,
/// `Duration::as_secs`), or `None` when `t` lies before the epoch.
#[verifier::external_body]
fn secs_since_unix_epoch(t: &std::time::SystemTime) -> Option<u64> {
    match t.duration_since(std::time::UNIX_EPOCH) {
        Ok(d) => Some(d.as_secs()),
        Err(_) => None,
    }
}

/// Notification configuration
pub struct NotificationConfig {
    pub enabled: bool,
    pub sound_enabled: bool,
    pub min_duration_secs: u64,
    pub watch_patterns: Vec<String>,
}

/// The prompt patterns watched by default: bash, zsh, cmd and PowerShell prompts.
pub open spec fn default_patterns() -> Seq<Seq<char>> {
    seq!["\\$\\s*$"@, "%\\s*$"@, ">\\s*$"@, "PS [^>]*>\\s*$"@]
}

impl NotificationConfig {
    /// The prompt patterns joined into one alternation.
    pub open spec fn prompt_pattern(&self) -> Seq<char> {
        join(texts(self.watch_patterns@), "|"@)
    }
}

impl Default for NotificationConfig {
    fn default() -> (c: NotificationConfig)
        ensures
            c.enabled,
            c.sound_enabled,
            c.min_duration_secs == 5,
            texts(c.watch_patterns@) == default_patterns(),
    {
        let mut watch_patterns: Vec<String> = Vec::new();
        watch_patterns.push(String::from_str("\\$\\s*$"));  // Bash prompt
        watch_patterns.push(String::from_str("%\\s*$"));  // Zsh prompt
        watch_patterns.push(String::from_str(">\\s*$"));  // CMD prompt
        watch_patterns.push(String::from_str("PS [^>]*>\\s*$"));  // PowerShell prompt
        assert(texts(watch_patterns@) =~= default_patterns());
        NotificationConfig { enabled: true, sound_enabled: true, min_duration_secs: 5, watch_patterns }
    }
}

#[derive(Debug, Clone, Copy, PartialEq, Eq, Structural)]
pub enum NotificationUrgency {
    Low,
    Normal,
    Critical,
}

/// Notification payload
pub struct Notification {
    pub title: String,
    pub body: String,
    pub icon: Option<String>,
    pub urgency: NotificationUrgency,
    pub terminal_id: String,
    pub timestamp: i64,
}

impl Notification {
    /// The notification has these texts, no icon, this urgency and stamp.
    pub open spec fn is(
        &self,
        title: Seq<char>,
        body: Seq<char>,
        urgency: NotificationUrgency,
        terminal_id: Seq<char>,
        timestamp: i64,
    ) -> bool {
        &&& self.title@ == title
        &&& self.body@ == body
        &&& self.icon is None
        &&& self.urgency == urgency
        &&& self.terminal_id@ == terminal_id
        &&& self.timestamp == timestamp
    }
}

/// A notification as values.
pub struct NotificationModel {
    pub title: Seq<char>,
    pub body: Seq<char>,
    pub has_icon: bool,
    pub urgency: NotificationUrgency,
    pub terminal_id: Seq<char>,
    pub timestamp: i64,
}

/// An optional notification as values.
pub open spec fn note_model(n: Option<Notification>) -> Option<NotificationModel> {
    match n {
        Some(n) => Some(
            NotificationModel {
                title: n.title@,
                body: n.body@,
                has_icon: n.icon is Some,
                urgency: n.urgency,
                terminal_id: n.terminal_id@,
                timestamp: n.timestamp,
            },
        ),
        None => None,
    }
}

/// A notification without icon.
pub open spec fn note(
    title: Seq<char>,
    body: Seq<char>,
    urgency: NotificationUrgency,
    terminal_id: Seq<char>,
    timestamp: i64,
) -> NotificationModel {
    NotificationModel { title, body, has_icon: false, urgency, terminal_id, timestamp }
}

/// The pattern that detects a bell character.
pub open spec fn bell_source() -> Seq<char> {
    "\\x07"@
}

/// The pattern that detects a ConEmu-style progress sequence `ESC ] 9 ; 4 ; ... BEL`.
pub open spec fn osc94_source() -> Seq<char> {
    "\\x1b\\]9;4;.*?\\x07"@
}

/// Per-terminal command tracking, as values: the terminal's id, when its
/// current command started, when output last arrived (nanoseconds on the
/// service's clock), whether a command is running, and the prompt pattern.
pub struct TrackerModel {
    pub id: Seq<char>,
    pub command_start: Option<u128>,
    pub last_output: u128,
    pub running: bool,
    pub prompt: Seq<char>,
}

/// The first tracker for `id` at or after position `i`.
pub open spec fn find_from(trs: Seq<TrackerModel>, id: Seq<char>, i: int) -> Option<int>
    decreases trs.len() - i,
{
    if i < 0 || i >= trs.len() {
        None
    } else if trs[i].id == id {
        Some(i)
    } else {
        find_from(trs, id, i + 1)
    }
}

/// The first tracker for `id`.
pub open spec fn find_tracker(trs: Seq<TrackerModel>, id: Seq<char>) -> Option<int> {
    find_from(trs, id, 0)
}

/// `t` in place of the first tracker with its id, or added at the end.
pub open spec fn upsert(trs: Seq<TrackerModel>, t: TrackerModel) -> Seq<TrackerModel> {
    match find_tracker(trs, t.id) {
        Some(k) => trs.update(k, t),
        None => trs.push(t),
    }
}

/// The first tracker for `id` removed, if there is one.
pub open spec fn remove_tracker(trs: Seq<TrackerModel>, id: Seq<char>) -> Seq<TrackerModel> {
    match find_tracker(trs, id) {
        Some(k) => trs.remove(k),
        None => trs,
    }
}

/// A tracker registered at `now`: no command running.
pub open spec fn fresh_tracker(id: Seq<char>, now: u128, prompt: Seq<char>) -> TrackerModel {
    TrackerModel { id, command_start: None, last_output: now, running: false, prompt }
}

/// Some line is neither blank nor a prompt: a command has started.
pub open spec fn starts_command(prompt: Seq<char>, lines: Seq<Seq<char>>) -> bool {
    exists|i: int| 0 <= i < lines.len() && !blank(lines[i]) && !regex_matches(prompt, #[trigger] lines[i])
}

/// Some line matches the prompt: the running command has finished.
pub open spec fn shows_prompt(prompt: Seq<char>, lines: Seq<Seq<char>>) -> bool {
    exists|i: int| 0 <= i < lines.len() && regex_matches(prompt, #[trigger] lines[i])
}

/// Nanoseconds from `start` to `now`, zero when `now` is earlier.
pub open spec fn elapsed(start: u128, now: u128) -> u128 {
    if now >= start {
        (now - start) as u128
    } else {
        0
    }
}

/// One chunk of output seen by a tracker at time `now`: the tracker after it,
/// and the run time of a command that finished in it when that run time is at
/// least `min_secs` seconds.
pub open spec fn command_step(t: TrackerModel, lines: Seq<Seq<char>>, now: u128, min_secs: u64) -> (
    TrackerModel,
    Option<u128>,
) {
    let t1 = TrackerModel { last_output: now, ..t };
    let t2 = if !t1.running && starts_command(t.prompt, lines) {
        TrackerModel { running: true, command_start: Some(now), ..t1 }
    } else {
        t1
    };
    if t2.running && shows_prompt(t.prompt, lines) {
        let dur: u128 = match t2.command_start {
            Some(start) => elapsed(start, now),
            None => 0,
        };
        let t3 = TrackerModel { running: false, command_start: None, ..t2 };
        (t3, if dur >= min_secs as int * 1_000_000_000 { Some(dur) } else { None })
    } else {
        (t2, None)
    }
}

/// What output `data` from terminal `id` does, at clock reading `now` and
/// wall-clock stamp `ts`: the trackers afterwards and the notification.
pub open spec fn output_outcome(
    enabled: bool,
    min_secs: u64,
    bell: Seq<char>,
    osc94: Seq<char>,
    trs: Seq<TrackerModel>,
    id: Seq<char>,
    data: Seq<char>,
    now: u128,
    ts: i64,
) -> (Seq<TrackerModel>, Option<NotificationModel>) {
    if !enabled {
        (trs, None)
    } else {
        match find_tracker(trs, id) {
            None => (trs, None),
            Some(k) => if regex_matches(bell, data) {
                (
                    trs,
                    Some(
                        note(
                            "Terminal Alert"@,
                            "Terminal "@ + id + " sent a bell signal"@,
                            NotificationUrgency::Normal,
                            id,
                            ts,
                        ),
                    ),
                )
            } else if regex_matches(osc94, data) {
                (
                    trs,
                    Some(
                        note(
                            "Task Complete"@,
                            "Terminal "@ + id + " completed a task"@,
                            NotificationUrgency::Low,
                            id,
                            ts,
                        ),
                    ),
                )
            } else {
                let (t2, due) = command_step(trs[k], lines_of(data), now, min_secs);
                (
                    trs.update(k, t2),
                    match due {
                        Some(d) => Some(
                            note(
                                "Command Complete"@,
                                "Finished in "@ + duration_text((d / 1_000_000_000) as u64),
                                NotificationUrgency::Normal,
                                id,
                                ts,
                            ),
                        ),
                        None => None,
                    },
                )
            },
        }
    }
}

/// When output that shows the prompt reaches a terminal whose command is
/// running since `start`, the command ends and the run time reported is
/// `now - start`, when it is at least `min_secs` seconds: the time of the
/// output seen in between plays no part.
pub proof fn law_command_duration_from_start(
    t: TrackerModel,
    lines: Seq<Seq<char>>,
    now: u128,
    min_secs: u64,
    start: u128,
    last: u128,
)
    requires
        t.running,
        t.command_start == Some(start),
        start <= now,
        shows_prompt(t.prompt, lines),
    ensures
        command_step(t, lines, now, min_secs).1 == (if now - start >= min_secs * 1_000_000_000 {
            Some((now - start) as u128)
        } else {
            None::<u128>
        }),
        command_step(TrackerModel { last_output: last, ..t }, lines, now, min_secs).1 == command_step(
            t,
            lines,
            now,
            min_secs,
        ).1,
        !command_step(t, lines, now, min_secs).0.running,
        command_step(t, lines, now, min_secs).0.command_start is None,
        command_step(t, lines, now, min_secs).0.last_output == now,
{
}

/// Output that shows the prompt, on a terminal whose command has run since
/// `start` for at least the minimum time, and that holds neither a bell nor
/// a progress sequence, is answered with "Command Complete" and the whole
/// run time `now - start` in whole seconds; the terminal's command ends.
pub proof fn law_long_command_reported(
    min_secs: u64,
    bell: Seq<char>,
    osc94: Seq<char>,
    trs: Seq<TrackerModel>,
    id: Seq<char>,
    data: Seq<char>,
    now: u128,
    ts: i64,
    k: int,
    start: u128,
)
    requires
        find_tracker(trs, id) == Some(k),
        !regex_matches(bell, data),
        !regex_matches(osc94, data),
        trs[k].running,
        trs[k].command_start == Some(start),
        start <= now,
        now - start >= min_secs * 1_000_000_000,
        shows_prompt(trs[k].prompt, lines_of(data)),
    ensures
        output_outcome(true, min_secs, bell, osc94, trs, id, data, now, ts).1 == Some(
            note(
                "Command Complete"@,
                "Finished in "@ + duration_text(((now - start) / 1_000_000_000) as u64),
                NotificationUrgency::Normal,
                id,
                ts,
            ),
        ),
        !output_outcome(true, min_secs, bell, osc94, trs, id, data, now, ts).0[k].running,
{
    lemma_find_from(trs, id, 0);
    law_command_duration_from_start(trs[k], lines_of(data), now, min_secs, start, trs[k].last_output);
}

/// No two trackers belong to the same terminal.
pub open spec fn ids_distinct(trs: Seq<TrackerModel>) -> bool {
    forall|i: int, j: int| 0 <= i < j < trs.len() ==> trs[i].id != trs[j].id
}

/// The tracker found for `id` has that id, and no earlier one does.
pub proof fn lemma_find_from(trs: Seq<TrackerModel>, id: Seq<char>, i: int)
    requires
        0 <= i,
    ensures
        find_from(trs, id, i) matches Some(k) ==> i <= k < trs.len() && trs[k].id == id && forall|j: int|
            i <= j < k ==> trs[j].id != id,
        find_from(trs, id, i) is None ==> forall|j: int| i <= j < trs.len() ==> trs[j].id != id,
    decreases trs.len() - i,
{
    if i < trs.len() && trs[i].id != id {
        lemma_find_from(trs, id, i + 1);
    }
}

/// A disabled service never notifies and changes no tracker.
pub proof fn law_disabled_is_silent(
    min_secs: u64,
    bell: Seq<char>,
    osc94: Seq<char>,
    trs: Seq<TrackerModel>,
    id: Seq<char>,
    data: Seq<char>,
    now: u128,
    ts: i64,
)
    ensures
        output_outcome(false, min_secs, bell, osc94, trs, id, data, now, ts) == (trs, None::<NotificationModel>),
{
}

/// Output from a terminal that is not tracked notifies nothing and changes
/// no tracker.
pub proof fn law_untracked_is_silent(
    enabled: bool,
    min_secs: u64,
    bell: Seq<char>,
    osc94: Seq<char>,
    trs: Seq<TrackerModel>,
    id: Seq<char>,
    data: Seq<char>,
    now: u128,
    ts: i64,
)
    requires
        forall|i: int| 0 <= i < trs.len() ==> trs[i].id != id,
    ensures
        output_outcome(enabled, min_secs, bell, osc94, trs, id, data, now, ts) == (trs, None::<NotificationModel>),
{
    lemma_find_from(trs, id, 0);
}

/// Registering keeps the trackers one per terminal, and the registered
/// terminal is then tracked with its fresh tracker.
pub proof fn law_register_keeps_ids_distinct(trs: Seq<TrackerModel>, t: TrackerModel)
    requires
        ids_distinct(trs),
    ensures
        ids_distinct(upsert(trs, t)),
        find_tracker(upsert(trs, t), t.id) matches Some(k) && upsert(trs, t)[k] == t,
{
    lemma_find_from(trs, t.id, 0);
    let u = upsert(trs, t);
    match find_tracker(trs, t.id) {
        Some(k) => {
            assert forall|i: int, j: int| 0 <= i < j < u.len() implies u[i].id != u[j].id by {
                if i == k {
                    assert(trs[j].id != t.id || j == k);
                } else if j == k {
                    assert(trs[i].id != t.id);
                }
            }
            lemma_find_from(u, t.id, 0);
            assert(u[k].id == t.id);
            if let Some(k2) = find_tracker(u, t.id) {
                assert(k2 == k);
            }
        },
        None => {
            assert forall|i: int, j: int| 0 <= i < j < u.len() implies u[i].id != u[j].id by {
                if j == trs.len() {
                    assert(trs[i].id != t.id);
                }
            }
            lemma_find_from(u, t.id, 0);
            assert(u[trs.len() as int].id == t.id);
            if let Some(k2) = find_tracker(u, t.id) {
                assert(k2 == trs.len());
            }
        },
    }
}

/// Unregistering a terminal stops tracking it, when each terminal has one
/// tracker.
pub proof fn law_unregister_stops_tracking(trs: Seq<TrackerModel>, id: Seq<char>)
    requires
        ids_distinct(trs),
    ensures
        find_tracker(remove_tracker(trs, id), id) is None,
        ids_distinct(remove_tracker(trs, id)),
{
    lemma_find_from(trs, id, 0);
    let r = remove_tracker(trs, id);
    match find_tracker(trs, id) {
        Some(k) => {
            assert forall|j: int| 0 <= j < r.len() implies r[j].id != id by {
                if j < k {
                    assert(r[j] == trs[j]);
                } else {
                    assert(r[j] == trs[j + 1]);
                }
            }
            assert forall|i: int, j: int| 0 <= i < j < r.len() implies r[i].id != r[j].id by {
                let ii = if i < k { i } else { i + 1 };
                let jj = if j < k { j } else { j + 1 };
                assert(r[i] == trs[ii] && r[j] == trs[jj]);
            }
        },
        None => {},
    }
    lemma_find_from(r, id, 0);
}

/// A finished command is reported only when it ran at least the minimum
/// time, and once reported the tracker is idle, so the same command is not
/// reported twice.
pub proof fn law_completion_reported_once(t: TrackerModel, lines: Seq<Seq<char>>, now: u128, min_secs: u64)
    ensures
        command_step(t, lines, now, min_secs).1 matches Some(d) ==> d >= min_secs as int * 1_000_000_000,
        command_step(t, lines, now, min_secs).1 is Some ==> !command_step(t, lines, now, min_secs).0.running
            && command_step(t, lines, now, min_secs).0.command_start is None,
        command_step(t, lines, now, min_secs).0.id == t.id,
        command_step(t, lines, now, min_secs).0.prompt == t.prompt,
{
}

/// Output keeps the trackers one per terminal.
pub proof fn law_output_keeps_ids_distinct(
    enabled: bool,
    min_secs: u64,
    bell: Seq<char>,
    osc94: Seq<char>,
    trs: Seq<TrackerModel>,
    id: Seq<char>,
    data: Seq<char>,
    now: u128,
    ts: i64,
)
    requires
        ids_distinct(trs),
    ensures
        ids_distinct(output_outcome(enabled, min_secs, bell, osc94, trs, id, data, now, ts).0),
{
    let r = output_outcome(enabled, min_secs, bell, osc94, trs, id, data, now, ts).0;
    lemma_find_from(trs, id, 0);
    if let Some(k) = find_tracker(trs, id) {
        assert forall|i: int, j: int| 0 <= i < j < r.len() implies r[i].id != r[j].id by {
            assert(r[i].id == trs[i].id && r[j].id == trs[j].id);
        }
    }
}

/// Command tracking state per terminal
struct TerminalTracking {
    terminal_id: String,
    command_start: Option<u128>,
    last_output: u128,
    is_running_command: bool,
    prompt_regex: Matcher,
}

impl TerminalTracking {
    closed spec fn model(self) -> TrackerModel {
        TrackerModel {
            id: self.terminal_id@,
            command_start: self.command_start,
            last_output: self.last_output,
            running: self.is_running_command,
            prompt: self.prompt_regex@,
        }
    }
}

closed spec fn tracker_models(v: Seq<TerminalTracking>) -> Seq<TrackerModel> {
    v.map_values(|t: TerminalTracking| t.model())
}

/// Whether a non-blank line that is not a prompt occurs.
fn has_command_line(prompt: &Matcher, lines: &Vec<&str>) -> (b: bool)
    ensures
        b == starts_command(prompt@, lines@.map_values(|l: &str| l@)),
{
    let ghost ls = lines@.map_values(|l: &str| l@);
    let mut i: usize = 0;
    while i < lines.len()
        invariant
            i <= lines.len(),
            ls == lines@.map_values(|l: &str| l@),
            forall|k: int| 0 <= k < i ==> blank(ls[k]) || regex_matches(prompt@, #[trigger] ls[k]),
        decreases lines.len() - i,
    {
        assert(ls[i as int] == lines@[i as int]@);
        if !is_blank(lines[i]) && !matcher_is_match(prompt, lines[i]) {
            return true;
        }
        i = i + 1;
    }
    false
}

/// Whether some line matches the prompt, looking from the last line back.
fn has_prompt_line(prompt: &Matcher, lines: &Vec<&str>) -> (b: bool)
    ensures
        b == shows_prompt(prompt@, lines@.map_values(|l: &str| l@)),
{
    let ghost ls = lines@.map_values(|l: &str| l@);
    let mut i: usize = lines.len();
    while i > 0
        invariant
            i <= lines.len(),
            ls == lines@.map_values(|l: &str| l@),
            forall|k: int| i <= k < lines.len() ==> !regex_matches(prompt@, #[trigger] ls[k]),
        decreases i,
    {
        i = i - 1;
        assert(ls[i as int] == lines@[i as int]@);
        if matcher_is_match(prompt, lines[i]) {
            return true;
        }
    }
    false
}

/// How long a command ran, as shown: seconds below a minute, minutes and
/// seconds below an hour, else hours and minutes.
pub open spec fn duration_text(secs: u64) -> Seq<char> {
    if secs < 60 {
        decimal(secs as nat) + "s"@
    } else if secs < 3600 {
        decimal((secs / 60) as nat) + "m "@ + decimal((secs % 60) as nat) + "s"@
    } else {
        decimal((secs / 3600) as nat) + "h "@ + decimal(((secs % 3600) / 60) as nat) + "m"@
    }
}

/// Formats a duration given in whole seconds.
pub fn format_duration(secs: u64) -> (s: String)
    ensures
        s@ == duration_text(secs),
{
    if secs < 60 {
        let mut s = decimal_text(secs);
        s.append("s");
        s
    } else if secs < 3600 {
        let mut s = decimal_text(secs / 60);
        s.append("m ");
        s.append(decimal_text(secs % 60).as_str());
        s.append("s");
        s
    } else {
        let mut s = decimal_text(secs / 3600);
        s.append("h ");
        s.append(decimal_text((secs % 3600) / 60).as_str());
        s.append("m");
        s
    }
}

/// Notification service
pub struct NotificationService {
    config: NotificationConfig,
    terminals: Vec<TerminalTracking>,
    bell_pattern: Matcher,
    osc94_pattern: Matcher,
    started: std::time::Instant,
}

impl NotificationService {
    /// The configuration in force.
    pub closed spec fn settings(&self) -> NotificationConfig {
        self.config
    }

    /// The tracked terminals, in registration order.
    pub closed spec fn trackers(&self) -> Seq<TrackerModel> {
        tracker_models(self.terminals@)
    }

    /// The pattern of the bell detector.
    pub closed spec fn bell(&self) -> Seq<char> {
        self.bell_pattern@
    }

    /// The pattern of the progress-sequence detector.
    pub closed spec fn osc94(&self) -> Seq<char> {
        self.osc94_pattern@
    }

    /// A service with this configuration and no tracked terminal.
    pub fn new(config: NotificationConfig) -> (s: NotificationService)
        requires
            regex_compiles(bell_source()),
            regex_compiles(osc94_source()),
        ensures
            s.settings() == config,
            s.trackers() == Seq::<TrackerModel>::empty(),
            s.bell() == bell_source(),
            s.osc94() == osc94_source(),
    {
        let bell_pattern = compile_matcher("\\x07").unwrap();
        let osc94_pattern = compile_matcher("\\x1b\\]9;4;.*?\\x07").unwrap();
        let s = NotificationService {
            config,
            terminals: Vec::new(),
            bell_pattern,
            osc94_pattern,
            started: instant_now(),
        };
        assert(s.trackers() =~= Seq::<TrackerModel>::empty());
        s
    }

    /// A service with this configuration, or `None` when one of the two fixed
    /// detector patterns fails to compile.
    pub fn try_new(config: NotificationConfig) -> (r: Option<NotificationService>)
        ensures
            r is Some <==> regex_compiles(bell_source()) && regex_compiles(osc94_source()),
            r matches Some(s) ==> {
                &&& s.settings() == config
                &&& s.trackers() == Seq::<TrackerModel>::empty()
                &&& s.bell() == bell_source()
                &&& s.osc94() == osc94_source()
            },
    {
        let bell_ok = compile_matcher("\\x07").is_ok();
        let osc94_ok = compile_matcher("\\x1b\\]9;4;.*?\\x07").is_ok();
        if bell_ok && osc94_ok {
            Some(NotificationService::new(config))
        } else {
            None
        }
    }

    /// Process terminal output and check for notifications, at the current
    /// time of the service's clock and the current wall-clock second.
    pub fn process_output(&mut self, terminal_id: &str, data: &str) -> (r: Option<Notification>)
        ensures
            exists|now: u128, ts: i64|
                (final(self).trackers(), note_model(r)) == output_outcome(
                    old(self).settings().enabled,
                    old(self).settings().min_duration_secs,
                    old(self).bell(),
                    old(self).osc94(),
                    old(self).trackers(),
                    terminal_id@,
                    data@,
                    now,
                    ts,
                ),
            final(self).settings() == old(self).settings(),
            final(self).bell() == old(self).bell(),
            final(self).osc94() == old(self).osc94(),
    {
        let now = nanos_since(&self.started);
        let ts = chrono_now();
        self.process_output_at(terminal_id, data, now, ts)
    }

    /// Process terminal output that arrives at clock reading `now`
    /// (nanoseconds), stamping a notification with `timestamp`.
    pub fn process_output_at(&mut self, terminal_id: &str, data: &str, now: u128, timestamp: i64) -> (r: Option<
        Notification,
    >)
        requires
            now / 1_000_000_000 <= u64::MAX,
        ensures
            (final(self).trackers(), note_model(r)) == output_outcome(
                old(self).settings().enabled,
                old(self).settings().min_duration_secs,
                old(self).bell(),
                old(self).osc94(),
                old(self).trackers(),
                terminal_id@,
                data@,
                now,
                timestamp,
            ),
            final(self).settings() == old(self).settings(),
            final(self).bell() == old(self).bell(),
            final(self).osc94() == old(self).osc94(),
    {
        if !self.config.enabled {
            return None;
        }
        let k = match self.find(terminal_id) {
            Some(k) => k,
            None => {
                return None;
            },
        };
        let id = String::from_str(terminal_id);
        // Check for BEL character (\x07) - explicit notification request
        if matcher_is_match(&self.bell_pattern, data) {
            let mut body = String::from_str("Terminal ");
            body.append(terminal_id);
            body.append(" sent a bell signal");
            return Some(
                Notification {
                    title: String::from_str("Terminal Alert"),
                    body,
                    icon: None,
                    urgency: NotificationUrgency::Normal,
                    terminal_id: id,
                    timestamp,
                },
            );
        }
        // Check for OSC 9;4 sequence (ConEmu-style progress/completion); such a
        // sequence ends in BEL, so with the default patterns the bell check
        // above answers first
        if matcher_is_match(&self.osc94_pattern, data) {
            let mut body = String::from_str("Terminal ");
            body.append(terminal_id);
            body.append(" completed a task");
            return Some(
                Notification {
                    title: String::from_str("Task Complete"),
                    body,
                    icon: None,
                    urgency: NotificationUrgency::Low,
                    terminal_id: id,
                    timestamp,
                },
            );
        }
        let lines = text_lines(data);
        let min_secs = self.config.min_duration_secs;
        let ghost before = self.terminals@;
        let due = track_output(&mut self.terminals[k], &lines, now, min_secs);
        proof {
            lemma_tracker_models_update(before, k as int, self.terminals@[k as int]);
            assert(self.terminals@ == before.update(k as int, self.terminals@[k as int]));
        }
        match due {
            Some(d) => {
                let mut body = String::from_str("Finished in ");
                body.append(format_duration((d / 1_000_000_000) as u64).as_str());
                Some(
                    Notification {
                        title: String::from_str("Command Complete"),
                        body,
                        icon: None,
                        urgency: NotificationUrgency::Normal,
                        terminal_id: id,
                        timestamp,
                    },
                )
            },
            None => None,
        }
    }

    /// Register a terminal for tracking at clock reading `now`: a fresh
    /// tracker with the joined prompt patterns replaces the terminal's
    /// tracker, or is added after the others.
    pub fn register_terminal_at(&mut self, terminal_id: String, now: u128)
        requires
            regex_compiles(old(self).settings().prompt_pattern()),
        ensures
            final(self).trackers() == upsert(
                old(self).trackers(),
                fresh_tracker(terminal_id@, now, old(self).settings().prompt_pattern()),
            ),
            final(self).settings() == old(self).settings(),
            final(self).bell() == old(self).bell(),
            final(self).osc94() == old(self).osc94(),
    {
        let joined = join_strings(&self.config.watch_patterns, "|");
        let prompt_regex = compile_matcher(joined.as_str()).unwrap();
        let tracking = TerminalTracking {
            terminal_id,
            command_start: None,
            last_output: now,
            is_running_command: false,
            prompt_regex,
        };
        let ghost before = self.terminals@;
        match self.find(tracking.terminal_id.as_str()) {
            Some(k) => {
                proof {
                    lemma_tracker_models_update(before, k as int, tracking);
                }
                self.terminals.set(k, tracking);
            },
            None => {
                proof {
                    lemma_tracker_models_push(before, tracking);
                }
                self.terminals.push(tracking);
            },
        }
    }

    /// Register a terminal for tracking, stamped with the service's clock.
    pub fn register_terminal(&mut self, terminal_id: String)
        requires
            regex_compiles(old(self).settings().prompt_pattern()),
        ensures
            exists|now: u128|
                final(self).trackers() == upsert(
                    old(self).trackers(),
                    fresh_tracker(terminal_id@, now, old(self).settings().prompt_pattern()),
                ),
            final(self).settings() == old(self).settings(),
            final(self).bell() == old(self).bell(),
            final(self).osc94() == old(self).osc94(),
    {
        let now = nanos_since(&self.started);
        self.register_terminal_at(terminal_id, now);
    }

    /// Registers the terminal when the joined prompt patterns compile; else
    /// leaves the service as it was and answers `false`.
    pub fn try_register_terminal(&mut self, terminal_id: String) -> (ok: bool)
        ensures
            ok == regex_compiles(old(self).settings().prompt_pattern()),
            ok ==> exists|now: u128|
                final(self).trackers() == upsert(
                    old(self).trackers(),
                    fresh_tracker(terminal_id@, now, old(self).settings().prompt_pattern()),
                ),
            !ok ==> final(self).trackers() == old(self).trackers(),
            final(self).settings() == old(self).settings(),
            final(self).bell() == old(self).bell(),
            final(self).osc94() == old(self).osc94(),
    {
        let joined = join_strings(&self.config.watch_patterns, "|");
        if compile_matcher(joined.as_str()).is_ok() {
            self.register_terminal(terminal_id);
            true
        } else {
            false
        }
    }

    /// Unregister a terminal
    pub fn unregister_terminal(&mut self, terminal_id: &str)
        ensures
            final(self).trackers() == remove_tracker(old(self).trackers(), terminal_id@),
            final(self).settings() == old(self).settings(),
            final(self).bell() == old(self).bell(),
            final(self).osc94() == old(self).osc94(),
    {
        let ghost before = self.terminals@;
        match self.find(terminal_id) {
            Some(k) => {
                proof {
                    lemma_tracker_models_remove(before, k as int);
                }
                self.terminals.remove(k);
            },
            None => {},
        }
    }

    /// Update configuration
    pub fn update_config(&mut self, config: NotificationConfig)
        ensures
            final(self).settings() == config,
            final(self).trackers() == old(self).trackers(),
            final(self).bell() == old(self).bell(),
            final(self).osc94() == old(self).osc94(),
    {
        self.config = config;
    }

    /// Get current configuration
    pub fn get_config(&self) -> (c: &NotificationConfig)
        ensures
            *c == self.settings(),
    {
        &self.config
    }

    /// The position of the first tracker for `id`.
    fn find(&self, id: &str) -> (r: Option<usize>)
        ensures
            match r {
                Some(k) => find_tracker(self.trackers(), id@) == Some(k as int) && k < self.terminals.len(),
                None => find_tracker(self.trackers(), id@) is None,
            },
    {
        let ghost trs = self.trackers();
        let mut i: usize = 0;
        while i < self.terminals.len()
            invariant
                i <= self.terminals.len(),
                trs == self.trackers(),
                trs.len() == self.terminals.len(),
                find_tracker(trs, id@) == find_from(trs, id@, i as int),
            decreases self.terminals.len() - i,
        {
            assert(trs[i as int] == self.terminals@[i as int].model());
            if str_eq_string(id, &self.terminals[i].terminal_id) {
                return Some(i);
            }
            i = i + 1;
        }
        None
    }
}

/// Updating one tracker updates its model.
proof fn lemma_tracker_models_update(v: Seq<TerminalTracking>, k: int, t: TerminalTracking)
    requires
        0 <= k < v.len(),
    ensures
        tracker_models(v.update(k, t)) =~= tracker_models(v).update(k, t.model()),
{
    assert forall|i: int| 0 <= i < v.len() implies #[trigger] tracker_models(v.update(k, t))[i]
        == tracker_models(v).update(k, t.model())[i] by {
        if i != k {
            assert(v.update(k, t)[i] == v[i]);
        }
    }
}

/// Adding a tracker adds its model.
proof fn lemma_tracker_models_push(v: Seq<TerminalTracking>, t: TerminalTracking)
    ensures
        tracker_models(v.push(t)) =~= tracker_models(v).push(t.model()),
{
    assert forall|i: int| 0 <= i < v.len() + 1 implies #[trigger] tracker_models(v.push(t))[i]
        == tracker_models(v).push(t.model())[i] by {
        if i < v.len() {
            assert(v.push(t)[i] == v[i]);
        }
    }
}

/// Removing a tracker removes its model.
proof fn lemma_tracker_models_remove(v: Seq<TerminalTracking>, k: int)
    requires
        0 <= k < v.len(),
    ensures
        tracker_models(v.remove(k)) =~= tracker_models(v).remove(k),
{
    assert forall|i: int| 0 <= i < v.len() - 1 implies #[trigger] tracker_models(v.remove(k))[i]
        == tracker_models(v).remove(k)[i] by {
        if i < k {
            assert(v.remove(k)[i] == v[i]);
        } else {
            assert(v.remove(k)[i] == v[i + 1]);
        }
    }
}

/// Runs one chunk of output through a tracker.
fn track_output(t: &mut TerminalTracking, lines: &Vec<&str>, now: u128, min_secs: u64) -> (due: Option<u128>)
    ensures
        (final(t).model(), due) == command_step(
            old(t).model(),
            lines@.map_values(|l: &str| l@),
            now,
            min_secs,
        ),
{
    // Track command execution
    t.last_output = now;
    // Check if a command is starting (non-empty line after prompt)
    if !t.is_running_command {
        if has_command_line(&t.prompt_regex, lines) {
            t.is_running_command = true;
            t.command_start = Some(now);
        }
    }
    // Check if command completed (prompt reappeared)
    if t.is_running_command {
        if has_prompt_line(&t.prompt_regex, lines) {
            let duration: u128 = match t.command_start {
                Some(start) => if now >= start {
                    now - start
                } else {
                    0
                },
                None => 0,
            };
            t.is_running_command = false;
            t.command_start = None;
            // Only notify if command ran long enough
            if duration >= min_secs as u128 * 1_000_000_000 {
                return Some(duration);
            }
        }
    }
    None
}

/// Whether a string slice and a string hold the same text.
fn str_eq_string(a: &str, b: &String) -> (r: bool)
    ensures
        r == (a@ == b@),
{
    let a2 = String::from_str(a);
    a2 == *b
}

/// The timestamp for a clock reading of `secs` whole seconds after the Unix
/// epoch, or 0 for a reading before the epoch (`None`).
pub open spec fn epoch_stamp(secs: Option<u64>) -> i64 {
    match secs {
        Some(x) => x as i64,
        None => 0,
    }
}

/// The timestamp for a clock reading of whole seconds since the epoch.
pub fn epoch_secs(secs: Option<u64>) -> (r: i64)
    ensures
        r == epoch_stamp(secs),
{
    match secs {
        Some(x) => x as i64,
        None => 0,
    }
}

/// Seconds since the Unix epoch, or 0 when the clock reads earlier.
pub fn chrono_now() -> (r: i64)
    ensures
        exists|secs: Option<u64>| r == #[trigger] epoch_stamp(secs),
{
    let secs = secs_since_unix_epoch(&system_now());
    let r = epoch_secs(secs);
    assert(r == epoch_stamp(secs));
    r
}

/// Delivers a notification to the desktop. Delivery is a log line in this
/// build, and it always succeeds.
pub fn send_notification(_notification: &Notification) -> (r: Result<(), String>)
    ensures
        r is Ok,
{
    Ok(())
}

} // verus!
