//! How PHPStan is located, invoked, and how its report becomes an analysis.
use crate::path::{join, join_path};
use crate::text::{decimal, decimal_string, trim, trimmed};
use vstd::prelude::*;

verus! {

/// Where and how PHPStan is run for a workspace.
pub struct Analyzer {
    root: String,
    phpstan_path: Option<String>,
    config_path: Option<String>,
    memory_limit: Option<String>,
}

/// The settings of an [`Analyzer`] as plain text.
pub struct AnalyzerView {
    pub root: Seq<char>,
    pub phpstan_path: Option<Seq<char>>,
    pub config_path: Option<Seq<char>>,
    pub memory_limit: Option<Seq<char>>,
}

impl View for Analyzer {
    type V = AnalyzerView;

    closed spec fn view(&self) -> AnalyzerView {
        AnalyzerView {
            root: self.root@,
            phpstan_path: self.phpstan_path.deep_view(),
            config_path: self.config_path.deep_view(),
            memory_limit: self.memory_limit.deep_view(),
        }
    }
}

/// One finding that PHPStan reported.
pub struct Issue {
    pub file: String,
    pub line: u64,
    pub message: String,
    pub identifier: Option<String>,
}

/// An [`Issue`] as plain text.
pub struct IssueView {
    pub file: Seq<char>,
    pub line: u64,
    pub message: Seq<char>,
    pub identifier: Option<Seq<char>>,
}

impl View for Issue {
    type V = IssueView;

    open spec fn view(&self) -> IssueView {
        IssueView {
            file: self.file@,
            line: self.line,
            message: self.message@,
            identifier: self.identifier.deep_view(),
        }
    }
}

/// The findings of one PHPStan run, and its errors that belong to no file.
pub struct Analysis {
    pub issues: Vec<Issue>,
    pub errors: Vec<String>,
}

/// A message as PHPStan's JSON report holds it under a file.
pub struct ReportedMessage {
    pub message: String,
    pub line: u64,
    pub identifier: Option<String>,
}

/// The messages that PHPStan's JSON report holds for one file.
pub struct ReportedFile {
    pub path: String,
    pub messages: Vec<ReportedMessage>,
}

/// PHPStan's JSON report: the files with their messages, in the order in
/// which they were read, and the errors that belong to no file.
pub struct PhpstanReport {
    pub files: Vec<ReportedFile>,
    pub errors: Vec<String>,
}

/// The views of a list of strings.
pub open spec fn texts(s: Seq<String>) -> Seq<Seq<char>> {
    s.map_values(|x: String| x@)
}

/// The views of a list of issues.
pub open spec fn issue_views(s: Seq<Issue>) -> Seq<IssueView> {
    s.map_values(|x: Issue| x@)
}

/// The issues that `file` contributes: one per message, in order.
pub open spec fn file_issues(file: ReportedFile) -> Seq<IssueView> {
    file.messages@.map_values(
        |m: ReportedMessage|
            IssueView {
                file: file.path@,
                line: m.line,
                message: m.message@,
                identifier: m.identifier.deep_view(),
            },
    )
}

/// The issues of all files, file after file.
pub open spec fn report_issues(files: Seq<ReportedFile>) -> Seq<IssueView>
    decreases files.len(),
{
    if files.len() == 0 {
        Seq::empty()
    } else {
        report_issues(files.drop_last()) + file_issues(files.last())
    }
}

/// The value that a message without a line number gets.
pub fn default_line_number() -> (line: u64)
    ensures
        line == 1,
{
    1
}


/// `path` resolved against the workspace `root`.
pub open spec fn resolve(root: Seq<char>, path: Seq<char>) -> Seq<char> {
    join_path(root, path)
}

/// The configuration file that PHPStan is given, if one is set.
pub open spec fn spec_configuration_path(a: AnalyzerView) -> Option<Seq<char>> {
    match a.config_path {
        Some(p) => Some(resolve(a.root, p)),
        None => None,
    }
}

/// The places where PHPStan is looked for, in order: the configured
/// executable, then `vendor/bin/phpstan` and `vendor/bin/phpstan.bat` in the
/// workspace.
pub open spec fn binary_candidates(a: AnalyzerView) -> Seq<Seq<char>> {
    let defaults = seq![
        resolve(a.root, "vendor/bin/phpstan"@),
        resolve(a.root, "vendor/bin/phpstan.bat"@),
    ];
    match a.phpstan_path {
        Some(p) => seq![resolve(a.root, p)] + defaults,
        None => defaults,
    }
}

/// The first candidate whose flag in `present` is set.
pub open spec fn first_present(candidates: Seq<Seq<char>>, present: Seq<bool>) -> Option<Seq<char>>
    decreases candidates.len(),
{
    if candidates.len() == 0 || present.len() == 0 {
        None
    } else if present[0] {
        Some(candidates[0])
    } else {
        first_present(candidates.drop_first(), present.drop_first())
    }
}

/// The arguments that PHPStan is run with to analyse `temporary` in place of
/// `file`.
pub open spec fn spec_command_arguments(a: AnalyzerView, file: Seq<char>, temporary: Seq<char>) -> Seq<
    Seq<char>,
> {
    let fixed = seq![
        "analyse"@,
        "--error-format=json"@,
        "--no-progress"@,
        "--no-ansi"@,
        "--tmp-file"@,
        temporary,
        "--instead-of"@,
        file,
        file,
    ];
    let configuration = match spec_configuration_path(a) {
        Some(c) => seq!["--configuration"@, c],
        None => Seq::empty(),
    };
    let limit = match a.memory_limit {
        Some(l) => seq!["--memory-limit="@ + l],
        None => Seq::empty(),
    };
    fixed + configuration + limit
}

/// The error when PHPStan cannot be found.
pub open spec fn missing_binary_message(a: AnalyzerView) -> Seq<char> {
    "PHPStan was not found. Install phpstan/phpstan in this workspace or set initializationOptions.phpstanPath. Looked for "@
        + resolve(a.root, "vendor/bin/phpstan"@) + "."@
}

/// A process to start: the program, its working directory and arguments.
pub struct Invocation {
    pub program: String,
    pub directory: String,
    pub arguments: Vec<String>,
}

/// Whether `path` names an existing regular file.
///
/// Calls `std::path::Path::is_file`. Nothing is claimed of the result: it
/// depends on the file system at the moment of the call.
#[verifier::external_body]
fn path_is_file(path: &str) -> bool {
    std::path::Path::new(path).is_file()
}

fn push_text(v: &mut Vec<String>, s: &str)
    ensures
        texts(final(v)@) == texts(old(v)@).push(s@),
{
    let ghost prior = v@;
    v.push(s.to_owned());
    assert(texts(v@) =~= texts(prior).push(s@));
}

impl Analyzer {
    /// An analyzer for the workspace at `root`, with nothing else configured.
    pub fn new(root: String) -> (a: Analyzer)
        ensures
            a@ == (AnalyzerView {
                root: root@,
                phpstan_path: None,
                config_path: None,
                memory_limit: None,
            }),
    {
        Analyzer { root, phpstan_path: None, config_path: None, memory_limit: None }
    }

    /// Replaces every setting of the analyzer.
    pub fn configure(
        &mut self,
        root: String,
        phpstan_path: Option<String>,
        config_path: Option<String>,
        memory_limit: Option<String>,
    )
        ensures
            final(self)@ == (AnalyzerView {
                root: root@,
                phpstan_path: phpstan_path.deep_view(),
                config_path: config_path.deep_view(),
                memory_limit: memory_limit.deep_view(),
            }),
    {
        self.root = root;
        self.phpstan_path = phpstan_path;
        self.config_path = config_path;
        self.memory_limit = memory_limit;
    }

    /// The workspace root.
    pub fn root(&self) -> (r: &String)
        ensures
            r@ == self@.root,
    {
        &self.root
    }

    /// The configuration file PHPStan is given: the configured one, resolved
    /// against the workspace root when it is relative.
    pub fn configuration_path(&self) -> (r: Option<String>)
        ensures
            r.deep_view() == spec_configuration_path(self@),
    {
        match &self.config_path {
            Some(p) => Some(join(self.root.as_str(), p.as_str())),
            None => None,
        }
    }

    /// The places where PHPStan is looked for, in order.
    pub fn binary_candidates(&self) -> (r: Vec<String>)
        ensures
            texts(r@) == binary_candidates(self@),
    {
        let mut r: Vec<String> = Vec::new();
        if let Some(p) = &self.phpstan_path {
            let c = join(self.root.as_str(), p.as_str());
            push_text(&mut r, c.as_str());
        }
        let a = join(self.root.as_str(), "vendor/bin/phpstan");
        push_text(&mut r, a.as_str());
        let b = join(self.root.as_str(), "vendor/bin/phpstan.bat");
        push_text(&mut r, b.as_str());
        assert(texts(r@) =~= binary_candidates(self@));
        r
    }

    /// The PHPStan executable: the first candidate that is a file, if any.
    pub fn find_binary(&self) -> (r: Option<String>)
        ensures
            exists|present: Seq<bool>|
                present.len() == binary_candidates(self@).len() && r.deep_view() == first_present(
                    binary_candidates(self@),
                    present,
                ),
    {
        let candidates = self.binary_candidates();
        let ghost cands = texts(candidates@);
        let ghost n = candidates@.len();
        let mut i: usize = 0;
        while i < candidates.len()
            invariant
                i <= candidates@.len() == n,
                cands == texts(candidates@),
                cands == binary_candidates(self@),
            decreases candidates@.len() - i,
        {
            if path_is_file(candidates[i].as_str()) {
                let ghost present = Seq::new(i as nat, |j: int| false) + seq![true] + Seq::new(
                    (n - i - 1) as nat,
                    |j: int| false,
                );
                proof {
                    lemma_first_present_after_absent(cands, present, i as int);
                    assert(present.skip(i as int)[0]);
                    assert(cands.skip(i as int)[0] == candidates@[i as int]@);
                }
                return Some(candidates[i].clone());
            }
            i = i + 1;
        }
        let ghost present = Seq::new(n, |j: int| false);
        proof {
            lemma_first_present_after_absent(cands, present, n as int);
        }
        None
    }

    /// The arguments that PHPStan is run with.
    pub fn command_arguments(&self, file: &str, temporary: &str) -> (r: Vec<String>)
        ensures
            texts(r@) == spec_command_arguments(self@, file@, temporary@),
    {
        let mut r: Vec<String> = Vec::new();
        push_text(&mut r, "analyse");
        push_text(&mut r, "--error-format=json");
        push_text(&mut r, "--no-progress");
        push_text(&mut r, "--no-ansi");
        push_text(&mut r, "--tmp-file");
        push_text(&mut r, temporary);
        push_text(&mut r, "--instead-of");
        push_text(&mut r, file);
        push_text(&mut r, file);
        if let Some(config) = self.configuration_path() {
            push_text(&mut r, "--configuration");
            push_text(&mut r, config.as_str());
        }
        if let Some(limit) = &self.memory_limit {
            let arg = String::from_str("--memory-limit=").concat(limit.as_str());
            push_text(&mut r, arg.as_str());
        }
        assert(texts(r@) =~= spec_command_arguments(self@, file@, temporary@));
        r
    }

    /// The error when PHPStan cannot be found.
    pub fn missing_binary_message(&self) -> (r: String)
        ensures
            r@ == missing_binary_message(self@),
    {
        let looked = join(self.root.as_str(), "vendor/bin/phpstan");
        String::from_str(
            "PHPStan was not found. Install phpstan/phpstan in this workspace or set initializationOptions.phpstanPath. Looked for ",
        ).concat(looked.as_str()).concat(".")
    }

    /// How PHPStan is run on `temporary` in place of `file`, given the
    /// executable that was found (`find_binary`): in the workspace root, or
    /// the error that no executable was found.
    pub fn invocation(&self, binary: Option<String>, file: &str, temporary: &str) -> (r: Result<
        Invocation,
        String,
    >)
        ensures
            binary is None ==> (r matches Err(e) && e@ == missing_binary_message(self@)),
            binary matches Some(b) ==> (r matches Ok(inv) && inv.program@ == b@
                && inv.directory@ == self@.root && texts(inv.arguments@)
                == spec_command_arguments(self@, file@, temporary@)),
    {
        match binary {
            None => Err(self.missing_binary_message()),
            Some(program) => Ok(
                Invocation {
                    program,
                    directory: self.root.clone(),
                    arguments: self.command_arguments(file, temporary),
                },
            ),
        }
    }
}

/// Candidates whose flags are unset are passed over.
proof fn lemma_first_present_after_absent(candidates: Seq<Seq<char>>, present: Seq<bool>, k: int)
    requires
        0 <= k <= candidates.len() == present.len(),
        forall|j: int| 0 <= j < k ==> !present[j],
    ensures
        first_present(candidates, present) == first_present(candidates.skip(k), present.skip(k)),
    decreases k,
{
    if k == 0 {
        assert(candidates.skip(0) =~= candidates);
        assert(present.skip(0) =~= present);
    } else {
        lemma_first_present_after_absent(candidates, present, k - 1);
        assert(candidates.skip(k - 1).drop_first() =~= candidates.skip(k));
        assert(present.skip(k - 1).drop_first() =~= present.skip(k));
        assert(!present.skip(k - 1)[0]);
    }
}

/// The first candidate whose flag in `present` is set.
pub fn select_binary(candidates: &Vec<String>, present: &Vec<bool>) -> (r: Option<String>)
    requires
        candidates@.len() == present@.len(),
    ensures
        r.deep_view() == first_present(texts(candidates@), present@),
{
    assert(texts(candidates@).skip(0) =~= texts(candidates@));
    assert(present@.skip(0) =~= present@);
    let mut i: usize = 0;
    while i < candidates.len()
        invariant
            i <= candidates@.len() == present@.len(),
            first_present(texts(candidates@), present@) == first_present(
                texts(candidates@).skip(i as int),
                present@.skip(i as int),
            ),
        decreases candidates@.len() - i,
    {
        proof {
            assert(texts(candidates@).skip(i as int).drop_first() =~= texts(candidates@).skip(
                i + 1,
            ));
            assert(present@.skip(i as int).drop_first() =~= present@.skip(i + 1));
        }
        if present[i] {
            return Some(candidates[i].clone());
        }
        i = i + 1;
    }
    None
}

/// The error when PHPStan cannot be started.
pub fn start_failure_message(error: &str) -> (r: String)
    ensures
        r@ == "Could not start PHPStan: "@ + error@,
{
    String::from_str("Could not start PHPStan: ").concat(error)
}

/// The error when PHPStan's output is no JSON report: what PHPStan wrote to
/// its error stream, trimmed, or the JSON error when that stream is blank.
pub open spec fn output_failure_message(stderr: Seq<char>, json_error: Seq<char>) -> Seq<char> {
    if trim(stderr).len() == 0 {
        "PHPStan returned invalid JSON: "@ + json_error
    } else {
        "PHPStan failed: "@ + trim(stderr)
    }
}

/// The error when PHPStan's output is no JSON report.
pub fn output_failure(stderr: &str, json_error: &str) -> (r: String)
    ensures
        r@ == output_failure_message(stderr@, json_error@),
{
    let t = trimmed(stderr);
    if t.as_str().is_empty() {
        String::from_str("PHPStan returned invalid JSON: ").concat(json_error)
    } else {
        String::from_str("PHPStan failed: ").concat(t.as_str())
    }
}

/// The name of the file that holds the buffer under analysis.
pub open spec fn temporary_file_name(process_id: u32, nanos: u128) -> Seq<char> {
    "phpstan-language-server-"@ + decimal(process_id as nat) + "-"@ + decimal(nanos as nat)
        + ".php"@
}

/// The name of the file that holds the buffer under analysis, made unique by
/// the process id and the time in nanoseconds.
pub fn temporary_file_name_for(process_id: u32, nanos: u128) -> (r: String)
    ensures
        r@ == temporary_file_name(process_id, nanos),
{
    let pid = decimal_string(process_id as u128);
    let time = decimal_string(nanos);
    String::from_str("phpstan-language-server-").concat(pid.as_str()).concat("-").concat(
        time.as_str(),
    ).concat(".php")
}

/// PHPStan always analyses the buffer's temporary file in place of the
/// document's file, and the document's file is what it is asked about.
pub proof fn lemma_buffer_analysed_in_place_of_file(
    a: AnalyzerView,
    file: Seq<char>,
    temporary: Seq<char>,
)
    ensures
        ({
            let args = spec_command_arguments(a, file, temporary);
            &&& args.len() >= 9
            &&& args[0] == "analyse"@
            &&& args[4] == "--tmp-file"@
            &&& args[5] == temporary
            &&& args[6] == "--instead-of"@
            &&& args[7] == file
            &&& args[8] == file
        }),
{
}

/// The executable found is the first candidate, in order, that is present;
/// none is found exactly when no candidate is present.
pub proof fn lemma_first_present_is_first(candidates: Seq<Seq<char>>, present: Seq<bool>, k: int)
    requires
        candidates.len() == present.len(),
    ensures
        first_present(candidates, present) is None <==> forall|j: int|
            0 <= j < present.len() ==> !#[trigger] present[j],
        0 <= k < present.len() && present[k] && (forall|j: int| 0 <= j < k ==> !present[j])
            ==> first_present(candidates, present) == Some(candidates[k]),
    decreases candidates.len(),
{
    if candidates.len() > 0 {
        lemma_first_present_is_first(candidates.drop_first(), present.drop_first(), k - 1);
        if !present[0] {
            if 0 < k < present.len() && present[k] && (forall|j: int| 0 <= j < k ==> !present[j]) {
                assert forall|j: int| 0 <= j < k - 1 implies !present.drop_first()[j] by {
                    assert(present.drop_first()[j] == present[j + 1]);
                }
                assert(present.drop_first()[k - 1] == present[k]);
            }
            if forall|j: int| 0 <= j < present.drop_first().len() ==> !#[trigger] present.drop_first()[j] {
                assert forall|j: int| 0 <= j < present.len() implies !#[trigger] present[j] by {
                    if j > 0 {
                        assert(present.drop_first()[j - 1] == present[j]);
                    }
                }
            }
        }
    }
}

/// PHPStan is always looked for in the workspace's `vendor/bin`: whatever
/// executable is configured, the candidates end with `vendor/bin/phpstan` and
/// `vendor/bin/phpstan.bat` under the root, and a configured executable
/// (resolved against the root) is tried first; with none configured these
/// two are the only candidates.
pub proof fn lemma_vendor_binaries_searched(a: AnalyzerView)
    ensures
        ({
            let c = binary_candidates(a);
            let n = c.len();
            &&& n == if a.phpstan_path is Some {
                3int
            } else {
                2int
            }
            &&& c[n - 2] == crate::path::join_path(a.root, "vendor/bin/phpstan"@)
            &&& c[n - 1] == crate::path::join_path(a.root, "vendor/bin/phpstan.bat"@)
            &&& a.phpstan_path matches Some(p) ==> c[0] == crate::path::join_path(a.root, p)
            &&& a.root.len() > 0 && a.root.last() != '/' ==> c[n - 2] == a.root
                + "/vendor/bin/phpstan"@ && c[n - 1] == a.root + "/vendor/bin/phpstan.bat"@
        }),
{
    reveal_strlit("vendor/bin/phpstan");
    reveal_strlit("vendor/bin/phpstan.bat");
    reveal_strlit("/vendor/bin/phpstan");
    reveal_strlit("/vendor/bin/phpstan.bat");
    assert(seq!['/'] + "vendor/bin/phpstan"@ =~= "/vendor/bin/phpstan"@);
    assert(seq!['/'] + "vendor/bin/phpstan.bat"@ =~= "/vendor/bin/phpstan.bat"@);
    let c = binary_candidates(a);
    if a.root.len() > 0 && a.root.last() != '/' {
        assert(a.root + seq!['/'] + "vendor/bin/phpstan"@ =~= a.root + "/vendor/bin/phpstan"@);
        assert(a.root + seq!['/'] + "vendor/bin/phpstan.bat"@ =~= a.root
            + "/vendor/bin/phpstan.bat"@);
    }
}

/// After the fixed arguments come, in this order and only when set, the
/// configuration file (resolved against the root) after `--configuration`,
/// and the memory limit as `--memory-limit=<limit>`.
pub proof fn lemma_optional_arguments(a: AnalyzerView, file: Seq<char>, temporary: Seq<char>)
    ensures
        ({
            let args = spec_command_arguments(a, file, temporary);
            let after_config: int = if a.config_path is Some {
                11
            } else {
                9
            };
            &&& args.len() == after_config + if a.memory_limit is Some {
                1int
            } else {
                0int
            }
            &&& a.config_path matches Some(c) ==> args[9] == "--configuration"@ && args[10]
                == crate::path::join_path(a.root, c)
            &&& a.memory_limit matches Some(l) ==> args[after_config] == "--memory-limit="@ + l
        }),
{
}

/// A configuration file is taken as it is when absolute, and relative to the
/// workspace root otherwise.
pub proof fn lemma_configuration_path_resolution(a: AnalyzerView, config: Seq<char>)
    requires
        a.config_path == Some(config),
    ensures
        crate::path::is_absolute(config) ==> spec_configuration_path(a) == Some(config),
        !crate::path::is_absolute(config) && a.root.len() > 0 && a.root.last() != '/'
            ==> spec_configuration_path(a) == Some(a.root + seq!['/'] + config),
{
}

fn copy_text(s: &Option<String>) -> (r: Option<String>)
    ensures
        r.deep_view() == s.deep_view(),
{
    match s {
        Some(t) => Some(t.clone()),
        None => None,
    }
}

impl Analysis {
    /// The analysis that a PHPStan report gives: every message of every file
    /// becomes an issue of that file, and the report's errors are kept.
    pub fn from_report(report: &PhpstanReport) -> (r: Analysis)
        ensures
            issue_views(r.issues@) == report_issues(report.files@),
            texts(r.errors@) == texts(report.errors@),
    {
        let mut issues: Vec<Issue> = Vec::new();
        let mut i: usize = 0;
        while i < report.files.len()
            invariant
                i <= report.files@.len(),
                issue_views(issues@) == report_issues(report.files@.take(i as int)),
            decreases report.files@.len() - i,
        {
            let file = &report.files[i];
            let ghost before = issues@;
            let mut j: usize = 0;
            while j < file.messages.len()
                invariant
                    j <= file.messages@.len(),
                    issue_views(issues@) == issue_views(before) + file_issues(*file).take(
                        j as int,
                    ),
                decreases file.messages@.len() - j,
            {
                let message = &file.messages[j];
                let ghost prior = issues@;
                issues.push(
                    Issue {
                        file: file.path.clone(),
                        line: message.line,
                        message: message.message.clone(),
                        identifier: copy_text(&message.identifier),
                    },
                );
                proof {
                    let x = file_issues(*file)[j as int];
                    assert(issue_views(issues@).last() == x);
                    assert(issue_views(issues@) =~= issue_views(prior).push(x));
                    assert(file_issues(*file).take(j + 1) =~= file_issues(*file).take(j as int).push(x));
                    assert(issue_views(issues@) =~= issue_views(before) + file_issues(*file).take(
                        j + 1,
                    ));
                }
                j = j + 1;
            }
            proof {
                assert(file_issues(*file).take(j as int) =~= file_issues(*file));
                assert(report.files@.take(i + 1).drop_last() =~= report.files@.take(i as int));
            }
            i = i + 1;
        }
        proof {
            assert(report.files@.take(i as int) =~= report.files@);
        }
        let mut errors: Vec<String> = Vec::new();
        let mut k: usize = 0;
        while k < report.errors.len()
            invariant
                k <= report.errors@.len(),
                texts(errors@) == texts(report.errors@.take(k as int)),
            decreases report.errors@.len() - k,
        {
            let ghost prior = errors@;
            errors.push(report.errors[k].clone());
            proof {
                let x = report.errors@[k as int]@;
                assert(texts(errors@) =~= texts(prior).push(x));
                assert(texts(report.errors@.take(k + 1)) =~= texts(report.errors@.take(k as int)).push(x));
                assert(texts(errors@) =~= texts(report.errors@.take(k + 1)));
            }
            k = k + 1;
        }
        proof {
            assert(report.errors@.take(k as int) =~= report.errors@);
        }
        Analysis { issues, errors }
    }
}

} // verus!
