//! The server's session state: the active project, its limits, and the
//! background build jobs.

use std::collections::HashMap;
use vstd::prelude::*;
use crate::constants::{MAX_DEPTH_HARD_CAP, MAX_FILES_HARD_CAP};
use crate::text::{ascii_lower, is_ascii_text, lowercase, lowercase_of, str_eq};

verus! {

broadcast use vstd::std_specs::hash::group_hash_axioms;

// ── project size presets ────────────────────────────────────────────────────

/// A project size preset, which sets the file-count and depth limits.
#[derive(Clone, Copy, Debug, PartialEq, Eq, Structural)]
pub enum ProjectSize {
    Small,
    Medium,
    Large,
}

impl Default for ProjectSize {
    /// The default preset is `Medium`.
    fn default() -> (r: ProjectSize)
        ensures
            r == ProjectSize::Medium,
    {
        ProjectSize::Medium
    }
}

/// The preset named by a lower-case text, if any.
pub open spec fn size_named(l: Seq<char>) -> Option<ProjectSize> {
    if l == "small"@ {
        Some(ProjectSize::Small)
    } else if l == "medium"@ {
        Some(ProjectSize::Medium)
    } else if l == "large"@ {
        Some(ProjectSize::Large)
    } else {
        None
    }
}

/// The file limit of a preset.
pub open spec fn files_limit(size: ProjectSize) -> nat {
    match size {
        ProjectSize::Small => 50,
        ProjectSize::Medium => 200,
        ProjectSize::Large => 1000,
    }
}

/// The depth limit of a preset; Java gets a deeper package hierarchy.
pub open spec fn depth_limit(size: ProjectSize, is_java: bool) -> nat {
    match size {
        ProjectSize::Small => if is_java { 4 } else { 2 },
        ProjectSize::Medium => if is_java { 4 } else { 3 },
        ProjectSize::Large => if is_java { 7 } else { 5 },
    }
}

/// The lower-case name of a preset.
pub open spec fn size_name(size: ProjectSize) -> Seq<char> {
    match size {
        ProjectSize::Small => "small"@,
        ProjectSize::Medium => "medium"@,
        ProjectSize::Large => "large"@,
    }
}

/// A preset's name is ASCII and lower case, and parsing it (which lower-cases
/// ASCII text letter by letter) gives the preset back.
pub proof fn law_preset_name_round_trip(p: ProjectSize)
    ensures
        is_ascii_text(size_name(p)),
        ascii_lower(size_name(p)) == size_name(p),
        size_named(ascii_lower(size_name(p))) == Some(p),
{
    reveal_strlit("small");
    reveal_strlit("medium");
    reveal_strlit("large");
    assert(ascii_lower(size_name(p)) =~= size_name(p));
    assert("small"@[0] != "large"@[0]);
    assert("small"@.len() != "medium"@.len() && "large"@.len() != "medium"@.len());
}

impl ProjectSize {
    /// Parses a preset name, ignoring case.
    pub fn from_str(s: &str) -> (r: Result<ProjectSize, ()>)
        ensures
            match size_named(lowercase_of(s@)) {
                Some(p) => r == Ok::<ProjectSize, ()>(p),
                None => r is Err,
            },
            is_ascii_text(s@) ==> match size_named(ascii_lower(s@)) {
                Some(p) => r == Ok::<ProjectSize, ()>(p),
                None => r is Err,
            },
    {
        let lower = lowercase(s);
        let l = lower.as_str();
        if str_eq(l, "small") {
            Ok(ProjectSize::Small)
        } else if str_eq(l, "medium") {
            Ok(ProjectSize::Medium)
        } else if str_eq(l, "large") {
            Ok(ProjectSize::Large)
        } else {
            Err(())
        }
    }

    /// The maximum number of files a project of this size may hold.
    pub fn max_files(&self) -> (r: usize)
        ensures
            r == files_limit(*self),
    {
        match self {
            ProjectSize::Small => 50,
            ProjectSize::Medium => 200,
            ProjectSize::Large => 1000,
        }
    }

    /// Java gets deeper package hierarchy; other languages use shallower
    /// defaults.
    pub fn max_depth(&self, language: &str) -> (r: usize)
        ensures
            r == depth_limit(*self, lowercase_of(language@) == "java"@),
            is_ascii_text(language@) ==> r == depth_limit(*self, ascii_lower(language@) == "java"@),
    {
        let lower = lowercase(language);
        let is_java = str_eq(lower.as_str(), "java");
        match self {
            ProjectSize::Small => if is_java { 4 } else { 2 },
            ProjectSize::Medium => if is_java { 4 } else { 3 },
            ProjectSize::Large => if is_java { 7 } else { 5 },
        }
    }

    /// The lower-case name of this preset.
    pub fn as_str(&self) -> (r: &'static str)
        ensures
            r@ == size_name(*self),
    {
        match self {
            ProjectSize::Small => "small",
            ProjectSize::Medium => "medium",
            ProjectSize::Large => "large",
        }
    }
}

// ── the limits of the active project ────────────────────────────────────────

/// The settings a project is used with.
pub struct ProjectSettings {
    pub language: String,
    pub max_files: usize,
    pub max_depth: usize,
    pub size: ProjectSize,
}

/// The fields read from a project's `.meta/project.json`, each present when
/// the file holds it with the expected JSON type.
pub struct ProjectMeta {
    pub language: Option<String>,
    pub max_files: Option<u64>,
    pub max_depth: Option<u64>,
    pub size: Option<String>,
}

/// What serde_json makes of a `.meta/project.json` text: the error message,
/// or the `language` string, `max_files` and `max_depth` unsigned integers
/// and `size` string of the object, each when present with that JSON type.
/// It depends on the text alone.
pub uninterp spec fn json_project_meta(raw: Seq<char>) -> Result<
    (Option<Seq<char>>, Option<u64>, Option<u64>, Option<Seq<char>>),
    Seq<char>,
>;

/// The view of an optional text.
pub open spec fn opt_view(o: Option<String>) -> Option<Seq<char>> {
    match o {
        Some(s) => Some(s@),
        None => None,
    }
}

/// Parses a `.meta/project.json` text with serde_json
/// (`serde_json::from_str::<Value>`) and reads its fields with
/// `Value::get`, `Value::as_str` and `Value::as_u64`; a parse failure gives
/// serde_json's error message. The result is `json_project_meta` of the text.
#[verifier::external_body]
fn parse_project_meta(raw: &str) -> (r: Result<ProjectMeta, String>)
    ensures
        match json_project_meta(raw@) {
            Ok((language, max_files, max_depth, size)) => r matches Ok(m) && opt_view(m.language)
                == language && m.max_files == max_files && m.max_depth == max_depth && opt_view(
                m.size,
            ) == size,
            Err(e) => r matches Err(m) && m@ == e,
        },
{
    match serde_json::from_str::<serde_json::Value>(raw) {
        Ok(v) => Ok(ProjectMeta {
            language: v.get("language").and_then(|x| x.as_str()).map(|s| s.to_string()),
            max_files: v.get("max_files").and_then(|x| x.as_u64()),
            max_depth: v.get("max_depth").and_then(|x| x.as_u64()),
            size: v.get("size").and_then(|x| x.as_str()).map(|s| s.to_string()),
        }),
        Err(e) => Err(e.to_string()),
    }
}

/// `n` limited to `cap`.
pub open spec fn clamp(n: nat, cap: nat) -> nat {
    if n > cap {
        cap
    } else {
        n
    }
}

/// The settings of a project created with the given language and size
/// preset name: the preset (Medium when the name is unknown) sets the
/// limits, and the language is kept in lower case.
pub fn settings_for_new(language: &str, size_str: &str) -> (r: ProjectSettings)
    ensures
        r.size == (match size_named(lowercase_of(size_str@)) {
            Some(p) => p,
            None => ProjectSize::Medium,
        }),
        r.max_files == files_limit(r.size),
        r.max_depth == depth_limit(r.size, lowercase_of(language@) == "java"@),
        r.language@ == lowercase_of(language@),
        is_ascii_text(size_str@) ==> r.size == (match size_named(ascii_lower(size_str@)) {
            Some(p) => p,
            None => ProjectSize::Medium,
        }),
        is_ascii_text(language@) ==> r.max_depth == depth_limit(
            r.size,
            ascii_lower(language@) == "java"@,
        ) && r.language@ == ascii_lower(language@),
{
    let size = match ProjectSize::from_str(size_str) {
        Ok(p) => p,
        Err(()) => ProjectSize::Medium,
    };
    let max_files = size.max_files();
    let max_depth = size.max_depth(language);
    ProjectSettings { language: lowercase(language), max_files, max_depth, size }
}

/// `r` holds the settings asked for by metadata with these fields: the
/// language ("unknown" when missing), the limits (200 files and depth 3 when
/// missing) clamped to `MAX_FILES_HARD_CAP` and `MAX_DEPTH_HARD_CAP`, and
/// the size preset named (Medium when missing or unknown).
pub open spec fn settings_match_meta(
    r: ProjectSettings,
    language: Option<Seq<char>>,
    max_files: Option<u64>,
    max_depth: Option<u64>,
    size: Option<Seq<char>>,
) -> bool {
    &&& r.language@ == (match language {
        Some(l) => l,
        None => "unknown"@,
    })
    &&& r.max_files == clamp(
        (match max_files {
            Some(n) => n as nat,
            None => 200,
        }),
        MAX_FILES_HARD_CAP as nat,
    )
    &&& r.max_depth == clamp(
        (match max_depth {
            Some(n) => n as nat,
            None => 3,
        }),
        MAX_DEPTH_HARD_CAP as nat,
    )
    &&& r.size == (match size_named(
        lowercase_of(
            match size {
                Some(s) => s,
                None => "medium"@,
            },
        ),
    ) {
        Some(p) => p,
        None => ProjectSize::Medium,
    })
}

/// The settings a project's metadata asks for. The file is user-editable,
/// so the limits are clamped to `MAX_FILES_HARD_CAP` and
/// `MAX_DEPTH_HARD_CAP`; missing fields default to language "unknown", 200
/// files, depth 3 and size "medium".
pub fn settings_from_meta(meta: &ProjectMeta) -> (r: ProjectSettings)
    ensures
        settings_match_meta(
            r,
            opt_view(meta.language),
            meta.max_files,
            meta.max_depth,
            opt_view(meta.size),
        ),
{
    let language = match &meta.language {
        Some(l) => l.clone(),
        None => "unknown".to_owned(),
    };
    let files: u64 = match meta.max_files {
        Some(n) => n,
        None => 200,
    };
    let depth: u64 = match meta.max_depth {
        Some(n) => n,
        None => 3,
    };
    let max_files: usize = if files > MAX_FILES_HARD_CAP as u64 {
        MAX_FILES_HARD_CAP
    } else {
        files as usize
    };
    let max_depth: usize = if depth > MAX_DEPTH_HARD_CAP as u64 {
        MAX_DEPTH_HARD_CAP
    } else {
        depth as usize
    };
    let size = match &meta.size {
        Some(s) => ProjectSize::from_str(s.as_str()),
        None => ProjectSize::from_str("medium"),
    };
    let size = match size {
        Ok(p) => p,
        Err(()) => ProjectSize::Medium,
    };
    ProjectSettings { language, max_files, max_depth, size }
}

/// Reads the settings recorded in a `.meta/project.json` text (see
/// `settings_from_meta`); a text serde_json cannot parse gives its error
/// message.
pub fn read_project_meta(raw: &str) -> (r: Result<ProjectSettings, String>)
    ensures
        match json_project_meta(raw@) {
            Ok((language, max_files, max_depth, size)) => r matches Ok(st) && settings_match_meta(
                st,
                language,
                max_files,
                max_depth,
                size,
            ),
            Err(e) => r matches Err(m) && m@ == e,
        },
{
    match parse_project_meta(raw) {
        Ok(meta) => Ok(settings_from_meta(&meta)),
        Err(e) => Err(e),
    }
}

// ── build jobs ──────────────────────────────────────────────────────────────

/// State of a background build job.
#[derive(Debug)]
pub enum BuildJob {
    Running { pid: u32 },
    Done { exit_code: i32, stdout: String, stderr: String },
}

/// Draws a fresh job identifier: calls `uuid::Uuid::new_v4()` and returns
/// it as a `u128` (`Uuid::as_u128`). The value is random; the uuid source
/// sets the version bits to 4 and the variant bits to `10`, which is all
/// that is stated of it.
#[verifier::external_body]
fn new_job_id() -> (id: u128)
    ensures
        id & 0xF000_C000_0000_0000_0000u128 == 0x4000_8000_0000_0000_0000u128,
{
    uuid::Uuid::new_v4().as_u128()
}

/// The lower-case hexadecimal digit of `d` (below 16).
pub open spec fn hex_digit(d: u128) -> char {
    if d < 10 {
        (('0' as u32) + (d as u32)) as char
    } else {
        (('a' as u32) + ((d - 10) as u32)) as char
    }
}

/// The 32 hexadecimal digits of `id`, most significant first.
pub open spec fn hex_digits(id: u128) -> Seq<char> {
    Seq::new(32, |k: int| hex_digit((id >> ((4 * (31 - k)) as u128)) & 0xF))
}

/// The text of a job id: its hexadecimal digits in lower case, grouped
/// 8-4-4-4-12 by hyphens, the form in which uuid writes a UUID.
pub open spec fn job_id_text_of(id: u128) -> Seq<char> {
    let h = hex_digits(id);
    h.subrange(0, 8) + seq!['-'] + h.subrange(8, 12) + seq!['-'] + h.subrange(12, 16) + seq!['-']
        + h.subrange(16, 20) + seq!['-'] + h.subrange(20, 32)
}

/// Writes a job id with uuid: `Uuid::from_u128(id).to_string()`. uuid's
/// `Display` writes the lower-case hyphenated form of the big-endian bytes,
/// which `job_id_text_of` states.
#[verifier::external_body]
fn uuid_text(id: u128) -> (r: String)
    ensures
        r@ == job_id_text_of(id),
{
    uuid::Uuid::from_u128(id).to_string()
}

/// What `uuid::Uuid::parse_str` makes of a text, as `Uuid::as_u128`; it
/// depends on the text alone.
pub uninterp spec fn parsed_uuid(text: Seq<char>) -> Option<u128>;

/// Parses a text with `uuid::Uuid::parse_str` and returns the UUID as a
/// `u128` (`Uuid::as_u128`), or nothing when uuid refuses it. uuid accepts
/// the hyphenated form it writes, so the text of `id` parses to `id`; what
/// it makes of other texts is only named.
#[verifier::external_body]
fn uuid_parse(text: &str) -> (r: Option<u128>)
    ensures
        r == parsed_uuid(text@),
        forall|id: u128| job_id_text_of(id) == text@ ==> r == Some(id),
{
    uuid::Uuid::parse_str(text).ok().map(|u| u.as_u128())
}

/// The text under which a build job is known to clients.
pub fn job_id_text(id: u128) -> (r: String)
    ensures
        r@ == job_id_text_of(id),
{
    uuid_text(id)
}

/// The job a client's text names: the id whose text it is exactly, or
/// nothing when it is no job id's text (another spelling of a UUID, such as
/// upper case or braces, names no job).
pub fn job_id_from_text(text: &str) -> (r: Option<u128>)
    ensures
        r matches Some(id) ==> job_id_text_of(id) == text@,
        r is None ==> forall|id: u128| job_id_text_of(id) != text@,
{
    match uuid_parse(text) {
        Some(id) => {
            let t = uuid_text(id);
            if str_eq(t.as_str(), text) {
                Some(id)
            } else {
                None
            }
        },
        None => None,
    }
}

/// What `build_status` finds for a job.
pub enum JobStatus {
    Unknown,
    Running,
    Finished { exit_code: i32, stdout: String, stderr: String },
}

/// What `build_kill` finds for a job.
#[derive(Clone, Copy, Debug, PartialEq, Eq)]
pub enum KillTarget {
    Unknown,
    AlreadyFinished,
    /// The job runs but its process id could not be learned.
    NoPid,
    Pid(u32),
}

// ── the state ───────────────────────────────────────────────────────────────

/// The session state of the server.
pub struct AppState {
    /// Active project directory (None until create_project or use_project is
    /// called).
    pub project_dir: Option<String>,
    pub language: Option<String>,
    pub max_files: usize,
    pub max_depth: usize,
    pub size: ProjectSize,
    pub project_name: Option<String>,
    /// Base directory for all projects.
    pub base_dir: String,
    /// Absolute path to the git binary.
    pub git_cmd: String,
    /// Background build jobs keyed by job id.
    pub jobs: HashMap<u128, BuildJob>,
}

/// The git binary used when none is configured.
pub open spec fn default_git() -> Seq<char> {
    "/usr/bin/git"@
}

/// The git binary to use: the configured path when it is absolute,
/// otherwise `/usr/bin/git`.
pub open spec fn git_choice(configured: Option<Seq<char>>) -> Seq<char> {
    match configured {
        Some(p) => if p.len() > 0 && p[0] == '/' {
            p
        } else {
            default_git()
        },
        None => default_git(),
    }
}

/// Picks the git binary from an optional configured path (`$GIT_CMD`): an
/// absolute path is used as is, anything else falls back to `/usr/bin/git`.
pub fn choose_git_cmd(configured: Option<&str>) -> (r: String)
    ensures
        r@ == git_choice(
            match configured {
                Some(p) => Some(p@),
                None => None,
            },
        ),
{
    match configured {
        Some(p) => {
            let v = crate::text::chars_of(p);
            if v.len() > 0 && v[0] == '/' {
                p.to_owned()
            } else {
                "/usr/bin/git".to_owned()
            }
        },
        None => "/usr/bin/git".to_owned(),
    }
}

/// Some job in `jobs` is running.
pub open spec fn any_running(jobs: Map<u128, BuildJob>) -> bool {
    exists|id: u128| jobs.contains_key(id) && jobs[id] is Running
}

/// Having seen all values of `m` without a running job, none is running.
proof fn lemma_no_running_seen(m: Map<u128, BuildJob>, s: Seq<&BuildJob>, n: int, found: bool)
    requires
        s.unref().to_set() == m.values(),
        0 <= n <= s.len(),
        !found ==> forall|j: int| 0 <= j < n ==> !(*s[j] is Running),
    ensures
        n == s.len() && !found ==> !any_running(m),
{
    if n == s.len() && !found && any_running(m) {
        let id = choose|id: u128| m.contains_key(id) && m[id] is Running;
        assert(m.values().contains(m[id]));
        let j = choose|j: int| 0 <= j < s.unref().len() && s.unref()[j] == m[id];
        assert(*s[j] == s.unref()[j]);
    }
}

/// What `build_status` reports for job `id` among `jobs`.
pub open spec fn status_of(jobs: Map<u128, BuildJob>, id: u128) -> JobStatus {
    if !jobs.contains_key(id) {
        JobStatus::Unknown
    } else {
        match jobs[id] {
            BuildJob::Running { .. } => JobStatus::Running,
            BuildJob::Done { exit_code, stdout, stderr } => JobStatus::Finished {
                exit_code,
                stdout,
                stderr,
            },
        }
    }
}

/// The jobs kept after `build_status` looked up `id`: a finished job is
/// handed out and forgotten, anything else stays.
pub open spec fn jobs_after_status(jobs: Map<u128, BuildJob>, id: u128) -> Map<u128, BuildJob> {
    if jobs.contains_key(id) && jobs[id] is Done {
        jobs.remove(id)
    } else {
        jobs
    }
}

/// A build that was just registered is reported as running, and while it
/// is recorded no second build may start.
pub proof fn law_registered_build_is_running(jobs: Map<u128, BuildJob>, id: u128, pid: u32)
    ensures
        status_of(jobs.insert(id, BuildJob::Running { pid }), id) == JobStatus::Running,
        jobs_after_status(jobs.insert(id, BuildJob::Running { pid }), id) == jobs.insert(
            id,
            BuildJob::Running { pid },
        ),
        any_running(jobs.insert(id, BuildJob::Running { pid })),
{
    assert(jobs.insert(id, BuildJob::Running { pid }).contains_key(id));
}

/// At most one job of `jobs` is running.
pub open spec fn at_most_one_running(jobs: Map<u128, BuildJob>) -> bool {
    forall|a: u128, b: u128|
        jobs.contains_key(a) && jobs.contains_key(b) && jobs[a] is Running && jobs[b] is Running
            ==> a == b
}

/// Builds never overlap when a build is registered only while none runs,
/// as `build_start` does: registering then keeps at most one job running,
/// and so do recording an outcome and handing one out.
pub proof fn law_builds_never_overlap(
    jobs: Map<u128, BuildJob>,
    id: u128,
    pid: u32,
    exit_code: i32,
    stdout: String,
    stderr: String,
)
    ensures
        !any_running(jobs) ==> at_most_one_running(jobs.insert(id, BuildJob::Running { pid })),
        at_most_one_running(jobs) ==> at_most_one_running(
            jobs.insert(id, BuildJob::Done { exit_code, stdout, stderr }),
        ),
        at_most_one_running(jobs) ==> at_most_one_running(jobs_after_status(jobs, id)),
{
}

/// The outcome recorded for a finished build is what `build_status`
/// reports, and it is reported once: the job is unknown afterwards.
pub proof fn law_finished_build_is_reported_once(
    jobs: Map<u128, BuildJob>,
    id: u128,
    exit_code: i32,
    stdout: String,
    stderr: String,
)
    ensures
        ({
            let done = jobs.insert(id, BuildJob::Done { exit_code, stdout, stderr });
            &&& status_of(done, id) == (JobStatus::Finished { exit_code, stdout, stderr })
            &&& status_of(jobs_after_status(done, id), id) == JobStatus::Unknown
        }),
{
}

/// Looking up a job that is not finished changes nothing, so asking again
/// gives the same answer.
pub proof fn law_status_of_unfinished_job_is_stable(jobs: Map<u128, BuildJob>, id: u128)
    requires
        !(status_of(jobs, id) is Finished),
    ensures
        jobs_after_status(jobs, id) == jobs,
{
}

impl AppState {
    /// A fresh state with no active project, the Medium preset's limits
    /// (200 files, depth 3) and no jobs.
    pub fn new(base_dir: String, git_cmd: String) -> (r: AppState)
        ensures
            r.project_dir is None,
            r.language is None,
            r.project_name is None,
            r.max_files == 200,
            r.max_depth == 3,
            r.size == ProjectSize::Medium,
            r.base_dir == base_dir,
            r.git_cmd == git_cmd,
            r.jobs@ == Map::<u128, BuildJob>::empty(),
    {
        AppState {
            project_dir: None,
            language: None,
            max_files: 200,
            max_depth: 3,
            size: ProjectSize::Medium,
            project_name: None,
            base_dir,
            git_cmd,
            jobs: HashMap::new(),
        }
    }

    /// Whether a project is active.
    pub fn has_project(&self) -> (r: bool)
        ensures
            r == self.project_dir is Some,
    {
        self.project_dir.is_some()
    }

    /// Makes `project_dir` the active project, named `name`, with `settings`.
    /// The base directory, git binary and jobs stay as they were.
    pub fn activate(&mut self, project_dir: String, name: String, settings: ProjectSettings)
        ensures
            final(self).project_dir == Some(project_dir),
            final(self).project_name == Some(name),
            final(self).language == Some(settings.language),
            final(self).max_files == settings.max_files,
            final(self).max_depth == settings.max_depth,
            final(self).size == settings.size,
            final(self).base_dir == old(self).base_dir,
            final(self).git_cmd == old(self).git_cmd,
            final(self).jobs@ == old(self).jobs@,
    {
        self.project_dir = Some(project_dir);
        self.language = Some(settings.language);
        self.max_files = settings.max_files;
        self.max_depth = settings.max_depth;
        self.size = settings.size;
        self.project_name = Some(name);
    }

    /// Whether some build job is still running.
    pub fn build_running(&self) -> (r: bool)
        ensures
            r == any_running(self.jobs@),
    {
        let ghost m = self.jobs@;
        let mut found = false;
        for job in it: self.jobs.values()
            invariant
                it.seq().unref().to_set() == m.values(),
                found ==> any_running(m),
                !found ==> forall|j: int| 0 <= j < it.index() ==> !(*it.seq()[j] is Running),
                it.index() == it.seq().len() && !found ==> !any_running(m),
        {
            proof {
                let s = it.seq();
                assert(s.unref()[it.index() as int] == *job);
                assert(s.unref().to_set().contains(*job));
            }
            if let BuildJob::Running { .. } = job {
                found = true;
            }
            proof {
                lemma_no_running_seen(m, it.seq(), it.index() + 1, found);
            }
        }
        found
    }

    /// Records a newly started build whose process id is `pid` under a
    /// fresh random job id, which it returns.
    pub fn register_build(&mut self, pid: u32) -> (id: u128)
        ensures
            id & 0xF000_C000_0000_0000_0000u128 == 0x4000_8000_0000_0000_0000u128,
            final(self).jobs@ == old(self).jobs@.insert(id, BuildJob::Running { pid }),
            final(self).project_dir == old(self).project_dir,
            final(self).max_files == old(self).max_files,
            final(self).max_depth == old(self).max_depth,
            final(self).base_dir == old(self).base_dir,
            final(self).git_cmd == old(self).git_cmd,
    {
        let id = new_job_id();
        self.jobs.insert(id, BuildJob::Running { pid });
        id
    }

    /// Records the outcome of the build job `id`.
    pub fn finish_build(&mut self, id: u128, exit_code: i32, stdout: String, stderr: String)
        ensures
            final(self).jobs@ == old(self).jobs@.insert(
                id,
                BuildJob::Done { exit_code, stdout, stderr },
            ),
            final(self).project_dir == old(self).project_dir,
            final(self).base_dir == old(self).base_dir,
            final(self).git_cmd == old(self).git_cmd,
    {
        self.jobs.insert(id, BuildJob::Done { exit_code, stdout, stderr });
    }

    /// Looks up the build job `id`. A finished job is handed out and
    /// forgotten; a running one stays.
    pub fn take_build_status(&mut self, id: u128) -> (r: JobStatus)
        ensures
            r == status_of(old(self).jobs@, id),
            final(self).jobs@ == jobs_after_status(old(self).jobs@, id),
            final(self).project_dir == old(self).project_dir,
            final(self).base_dir == old(self).base_dir,
            final(self).git_cmd == old(self).git_cmd,
    {
        match self.jobs.remove(&id) {
            None => JobStatus::Unknown,
            Some(BuildJob::Running { pid }) => {
                self.jobs.insert(id, BuildJob::Running { pid });
                assert(self.jobs@ =~= old(self).jobs@);
                JobStatus::Running
            },
            Some(BuildJob::Done { exit_code, stdout, stderr }) => JobStatus::Finished {
                exit_code,
                stdout,
                stderr,
            },
        }
    }

    /// What killing the build job `id` would act on.
    pub fn kill_target(&self, id: u128) -> (r: KillTarget)
        ensures
            !self.jobs@.contains_key(id) ==> r == KillTarget::Unknown,
            self.jobs@.contains_key(id) && self.jobs@[id] is Done ==> r
                == KillTarget::AlreadyFinished,
            self.jobs@.contains_key(id) && self.jobs@[id] is Running ==> (if self.jobs@[id]->pid
                == 0 {
                r == KillTarget::NoPid
            } else {
                r == KillTarget::Pid(self.jobs@[id]->pid)
            }),
    {
        match self.jobs.get(&id) {
            None => KillTarget::Unknown,
            Some(BuildJob::Done { .. }) => KillTarget::AlreadyFinished,
            Some(BuildJob::Running { pid }) => if *pid == 0 {
                KillTarget::NoPid
            } else {
                KillTarget::Pid(*pid)
            },
        }
    }
}

} // verus!
