//! The decisions of the diagnostics-only LSP server: what each client
//! message does to the server's state, and which message answers it.
use crate::cli::{CommandLineOptions, OptionsView};
use crate::json::{
    field, find_member, items_of, json_views, member, number, object, text_of, JsonValue, JsonView,
    Members,
};
use crate::path::{paths_equal, same_path};
use crate::phpstan::{Analysis, Analyzer, AnalyzerView, Issue, IssueView, issue_views, texts};
use crate::text::{line_character_range, same_text, spec_line_character_range};
use vstd::hash_map::StringHashMap;
use vstd::prelude::*;

verus! {

// ---------------------------------------------------------------------------
// Methods
// ---------------------------------------------------------------------------

/// The LSP methods that the server tells apart.
#[derive(Debug, PartialEq, Eq)]
pub enum Method {
    Initialize,
    Initialized,
    Shutdown,
    Exit,
    DidOpen,
    DidChange,
    DidSave,
    DidClose,
    Unknown,
}

/// The method a message's `method` names.
pub open spec fn method_named(name: Option<Seq<char>>) -> Method {
    match name {
        Some(n) => if n == "initialize"@ {
            Method::Initialize
        } else if n == "initialized"@ {
            Method::Initialized
        } else if n == "shutdown"@ {
            Method::Shutdown
        } else if n == "exit"@ {
            Method::Exit
        } else if n == "textDocument/didOpen"@ {
            Method::DidOpen
        } else if n == "textDocument/didChange"@ {
            Method::DidChange
        } else if n == "textDocument/didSave"@ {
            Method::DidSave
        } else if n == "textDocument/didClose"@ {
            Method::DidClose
        } else {
            Method::Unknown
        },
        None => Method::Unknown,
    }
}

/// The text of an optional string.
pub open spec fn opt_text(s: Option<&str>) -> Option<Seq<char>> {
    match s {
        Some(t) => Some(t@),
        None => None,
    }
}

impl Method {
    /// The method that `method` names; `Unknown` for any other name or none.
    pub fn from(method: Option<&str>) -> (m: Method)
        ensures
            m == method_named(opt_text(method)),
    {
        match method {
            None => Method::Unknown,
            Some(n) => if same_text(n, "initialize") {
                Method::Initialize
            } else if same_text(n, "initialized") {
                Method::Initialized
            } else if same_text(n, "shutdown") {
                Method::Shutdown
            } else if same_text(n, "exit") {
                Method::Exit
            } else if same_text(n, "textDocument/didOpen") {
                Method::DidOpen
            } else if same_text(n, "textDocument/didChange") {
                Method::DidChange
            } else if same_text(n, "textDocument/didSave") {
                Method::DidSave
            } else if same_text(n, "textDocument/didClose") {
                Method::DidClose
            } else {
                Method::Unknown
            },
        }
    }
}

// ---------------------------------------------------------------------------
// Open documents
// ---------------------------------------------------------------------------

/// The text of each open document, by URI.
pub struct Documents {
    map: StringHashMap<String>,
}

impl View for Documents {
    type V = Map<Seq<char>, Seq<char>>;

    closed spec fn view(&self) -> Map<Seq<char>, Seq<char>> {
        self.map@.map_values(|s: String| s@)
    }
}

impl Documents {
    /// No open documents.
    pub fn new() -> (d: Documents)
        ensures
            d@ == Map::<Seq<char>, Seq<char>>::empty(),
    {
        let d = Documents { map: StringHashMap::new() };
        assert(d@ =~= Map::<Seq<char>, Seq<char>>::empty());
        d
    }

    /// Records `text` as the text of `uri`.
    pub fn insert(&mut self, uri: String, text: String)
        ensures
            final(self)@ == old(self)@.insert(uri@, text@),
    {
        let ghost prior = self.map@;
        self.map.insert(uri, text);
        assert(self@ =~= prior.map_values(|s: String| s@).insert(uri@, text@));
    }

    /// Forgets `uri`.
    pub fn remove(&mut self, uri: &str)
        ensures
            final(self)@ == old(self)@.remove(uri@),
    {
        let ghost prior = self.map@;
        self.map.remove(uri);
        assert(self@ =~= prior.map_values(|s: String| s@).remove(uri@));
    }

    /// The text of `uri`, if it is open.
    pub fn get(&self, uri: &str) -> (r: Option<&String>)
        ensures
            match r {
                Some(t) => self@.contains_key(uri@) && self@[uri@] == t@,
                None => !self@.contains_key(uri@),
            },
    {
        self.map.get(uri)
    }
}

// ---------------------------------------------------------------------------
// Outside calls
// ---------------------------------------------------------------------------

/// The file path that a URI names, as `url::Url::parse(uri)` followed by
/// `Url::to_file_path` gives it: none when the URI does not parse or names
/// no local file.
pub uninterp spec fn uri_file_path(uri: Seq<char>) -> Option<Seq<char>>;

/// The local file path of a `file:` URI.
///
/// Calls `url::Url::parse` and `Url::to_file_path`; the result is named
/// [`uri_file_path`] of the URI. A path that is not valid UTF-8 is given with
/// replacement characters, as `Path::to_string_lossy` writes it.
#[verifier::external_body]
fn path_from_uri(uri: &str) -> (r: Option<String>)
    ensures
        r.deep_view() == uri_file_path(uri@),
{
    let url = url::Url::parse(uri).ok()?;
    let path = url.to_file_path().ok()?;
    Some(path.to_string_lossy().into_owned())
}

/// The canonical form of `path`, with symbolic links resolved.
///
/// Calls `std::path::Path::canonicalize`. Nothing is claimed of the result:
/// it depends on the file system at the moment of the call.
#[verifier::external_body]
fn canonical_path(path: &str) -> Option<String> {
    let canonical = std::path::Path::new(path).canonicalize().ok()?;
    Some(canonical.to_string_lossy().into_owned())
}

// ---------------------------------------------------------------------------
// Reading messages
// ---------------------------------------------------------------------------

/// The `params` of a message.
pub open spec fn params(message: JsonView) -> JsonView {
    member(message, "params"@)
}

/// The method a message names.
pub open spec fn message_method(message: JsonView) -> Method {
    method_named(text_of(member(message, "method"@)))
}

/// The `id` of a request; none for a notification.
pub open spec fn request_id(message: JsonView) -> Option<JsonView> {
    field(message, "id"@)
}

/// `params.textDocument.uri`.
pub open spec fn spec_document_uri(message: JsonView) -> Option<Seq<char>> {
    text_of(member(member(params(message), "textDocument"@), "uri"@))
}

/// The `text` of the last entry of `params.contentChanges`.
pub open spec fn changed_text(message: JsonView) -> Option<Seq<char>> {
    match items_of(member(params(message), "contentChanges"@)) {
        Some(changes) => if changes.len() > 0 {
            match field(changes.last(), "text"@) {
                Some(t) => text_of(t),
                None => None,
            }
        } else {
            None
        },
        None => None,
    }
}

/// The new text of a document: `params.textDocument.text`, or else the text
/// of the last content change.
pub open spec fn document_text(message: JsonView) -> Option<Seq<char>> {
    match text_of(member(member(params(message), "textDocument"@), "text"@)) {
        Some(t) => Some(t),
        None => changed_text(message),
    }
}

/// The first root that is known: the path of `rootUri`, else `rootPath`,
/// else the path of the first workspace folder's URI.
pub open spec fn root_from(
    from_root_uri: Option<Seq<char>>,
    root_path: Option<Seq<char>>,
    from_folder: Option<Seq<char>>,
) -> Option<Seq<char>> {
    if from_root_uri is Some {
        from_root_uri
    } else if root_path is Some {
        root_path
    } else {
        from_folder
    }
}

/// The path of the URI that `uri` holds as a string, if any.
pub open spec fn uri_path_of(uri: JsonView) -> Option<Seq<char>> {
    match text_of(uri) {
        Some(u) => uri_file_path(u),
        None => None,
    }
}

/// The `uri` of the first workspace folder.
pub open spec fn first_folder_uri(params: JsonView) -> JsonView {
    match items_of(member(params, "workspaceFolders"@)) {
        Some(folders) => if folders.len() > 0 {
            member(folders[0], "uri"@)
        } else {
            JsonView::Null
        },
        None => JsonView::Null,
    }
}

/// The workspace root that `initialize` parameters give: the path of
/// `rootUri`, else `rootPath`, else the path of the first workspace folder's
/// URI.
pub open spec fn spec_workspace_root(params: JsonView) -> Option<Seq<char>> {
    root_from(
        uri_path_of(member(params, "rootUri"@)),
        text_of(member(params, "rootPath"@)),
        uri_path_of(first_folder_uri(params)),
    )
}

/// `params.textDocument.uri` of a message.
pub fn document_uri(message: &JsonValue) -> (r: Option<&str>)
    ensures
        opt_text(r) == spec_document_uri(message@),
{
    let p = message.get("params")?;
    let d = p.get("textDocument")?;
    let u = d.get("uri")?;
    u.as_str()
}

/// `params.initializationOptions` of a message: the value that the client's
/// PHPStan settings are read from.
pub fn initialization_options_of(message: &JsonValue) -> (r: Option<&JsonValue>)
    ensures
        match r {
            Some(v) => field(params(message@), "initializationOptions"@) == Some(v@),
            None => field(params(message@), "initializationOptions"@) is None,
        },
{
    let p = message.get("params")?;
    p.get("initializationOptions")
}

fn change_text(message: &JsonValue) -> (r: Option<&str>)
    ensures
        opt_text(r) == changed_text(message@),
{
    let p = message.get("params")?;
    let changes = p.get("contentChanges")?.as_array()?;
    if changes.len() == 0 {
        return None;
    }
    let last = &changes[changes.len() - 1];
    assert(json_views(changes@).last() == last@);
    last.get("text")?.as_str()
}

/// The new text of a document that a message carries.
pub fn document_change(message: &JsonValue) -> (r: Option<&str>)
    ensures
        opt_text(r) == document_text(message@),
{
    let inline = match message.get("params") {
        Some(p) => match p.get("textDocument") {
            Some(d) => match d.get("text") {
                Some(t) => t.as_str(),
                None => None,
            },
            None => None,
        },
        None => None,
    };
    match inline {
        Some(t) => Some(t),
        None => change_text(message),
    }
}

fn uri_path(uri: Option<&JsonValue>) -> (r: Option<String>)
    ensures
        r.deep_view() == uri_path_of(
            match uri {
                Some(u) => u@,
                None => JsonView::Null,
            },
        ),
{
    let u = uri?.as_str()?;
    path_from_uri(u)
}

fn folder_uri(params: &JsonValue) -> (r: Option<&JsonValue>)
    ensures
        match r {
            Some(u) => u@ == first_folder_uri(params@),
            None => first_folder_uri(params@) == JsonView::Null,
        },
{
    let folders = params.get("workspaceFolders")?.as_array()?;
    if folders.len() == 0 {
        return None;
    }
    let first = &folders[0];
    assert(json_views(folders@)[0] == first@);
    first.get("uri")
}

/// The first root that is known: the path of `rootUri`, else `rootPath`,
/// else the path of the first workspace folder's URI.
pub fn workspace_root_from(
    from_root_uri: Option<String>,
    root_path: Option<&str>,
    from_folder: Option<String>,
) -> (r: Option<String>)
    ensures
        r.deep_view() == root_from(from_root_uri.deep_view(), opt_text(root_path), from_folder.deep_view()),
{
    if from_root_uri.is_some() {
        from_root_uri
    } else if let Some(p) = root_path {
        Some(p.to_owned())
    } else {
        from_folder
    }
}

/// The workspace root that `initialize` parameters give.
pub fn workspace_root(params: &JsonValue) -> (r: Option<String>)
    ensures
        r.deep_view() == spec_workspace_root(params@),
{
    let from_root_uri = uri_path(params.get("rootUri"));
    let root_path = match params.get("rootPath") {
        Some(p) => p.as_str(),
        None => None,
    };
    let from_folder = uri_path(folder_uri(params));
    workspace_root_from(from_root_uri, root_path, from_folder)
}

/// Records the text that a `didOpen` or `didChange` message carries, and
/// gives the document's URI; does nothing when the message lacks either.
pub fn update_document(message: &JsonValue, documents: &mut Documents) -> (r: Option<String>)
    ensures
        match (spec_document_uri(message@), document_text(message@)) {
            (Some(uri), Some(text)) => r.deep_view() == Some(uri) && final(documents)@ == old(
                documents,
            )@.insert(uri, text),
            _ => r is None && final(documents)@ == old(documents)@,
        },
{
    let uri = document_uri(message)?;
    let text = document_change(message)?;
    documents.insert(uri.to_owned(), text.to_owned());
    Some(uri.to_owned())
}


// ---------------------------------------------------------------------------
// Writing messages
// ---------------------------------------------------------------------------

/// A JSON string.
pub open spec fn jstr(s: Seq<char>) -> JsonView {
    JsonView::Str(s)
}

/// The version that the server reports.
pub open spec fn server_version() -> Seq<char> {
    "0.1.0"@
}

/// A position in a document.
pub open spec fn position(line: nat, character: nat) -> JsonView {
    object(seq![("line"@, number(line)), ("character"@, number(character))])
}

/// The `code` of a diagnostic: PHPStan's identifier, or null.
pub open spec fn code_value(code: Option<Seq<char>>) -> JsonView {
    match code {
        Some(c) => jstr(c),
        None => JsonView::Null,
    }
}

/// An error diagnostic of PHPStan on `line`, from `start` to `end`.
pub open spec fn spec_diagnostic(
    line: nat,
    start: nat,
    end: nat,
    message: Seq<char>,
    code: Option<Seq<char>>,
) -> JsonView {
    object(
        seq![
            ("range"@, object(seq![("start"@, position(line, start)), ("end"@, position(line, end))])),
            ("severity"@, number(1)),
            ("source"@, jstr("phpstan"@)),
            ("code"@, code_value(code)),
            ("message"@, jstr(message)),
        ],
    )
}

/// The response to the request `id`.
pub open spec fn spec_response(id: JsonView, result: JsonView) -> JsonView {
    object(seq![("jsonrpc"@, jstr("2.0"@)), ("id"@, id), ("result"@, result)])
}

/// The notification that publishes `diagnostics` for `uri`.
pub open spec fn spec_publish(uri: Seq<char>, diagnostics: Seq<JsonView>) -> JsonView {
    object(
        seq![
            ("jsonrpc"@, jstr("2.0"@)),
            ("method"@, jstr("textDocument/publishDiagnostics"@)),
            ("params"@, object(seq![("uri"@, jstr(uri)), ("diagnostics"@, JsonView::Array(diagnostics))])),
        ],
    )
}

/// The notification that publishes one error, `message`, on the first
/// character of `uri`.
pub open spec fn spec_publish_error(uri: Seq<char>, message: Seq<char>) -> JsonView {
    spec_publish(uri, seq![spec_diagnostic(0, 0, 1, message, None)])
}

/// The result of `initialize`: full-text synchronisation of opened and
/// closed documents, and the server's name and version.
pub open spec fn spec_initialize_result() -> JsonView {
    object(
        seq![
            ("capabilities"@, object(seq![("textDocumentSync"@, object(seq![("openClose"@, JsonView::Bool(true)), ("change"@, number(1))]))])),
            ("serverInfo"@, object(seq![("name"@, jstr("phpstan-diagnostics-lsp"@)), ("version"@, jstr(server_version()))])),
        ],
    )
}

/// The diagnostic for an issue: PHPStan counts lines from one, LSP from zero
/// (a line 0 stays 0), and the range covers the line without its surrounding
/// white space.
pub open spec fn issue_diagnostic(issue: IssueView, source: Seq<char>) -> JsonView {
    let line = if issue.line >= 1 { (issue.line - 1) as nat } else { 0nat };
    let range = spec_line_character_range(source, line);
    spec_diagnostic(line, range.0 as nat, range.1 as nat, issue.message, issue.identifier)
}

/// The diagnostics of the issues whose flag in `keep` is set, in order.
pub open spec fn kept_diagnostics(issues: Seq<IssueView>, keep: Seq<bool>, source: Seq<char>) -> Seq<
    JsonView,
>
    decreases issues.len(),
{
    if issues.len() == 0 || keep.len() == 0 {
        Seq::empty()
    } else {
        let rest = kept_diagnostics(issues.drop_last(), keep.drop_last(), source);
        if keep.last() {
            rest.push(issue_diagnostic(issues.last(), source))
        } else {
            rest
        }
    }
}

/// How many flags of `keep` are set.
pub open spec fn set_flags(keep: Seq<bool>) -> nat
    decreases keep.len(),
{
    if keep.len() == 0 {
        0
    } else {
        set_flags(keep.drop_last()) + if keep.last() {
            1nat
        } else {
            0nat
        }
    }
}

/// Counting the set flags of a prefix: a longer prefix holds at least as
/// many, and one more past a set flag.
proof fn lemma_set_flags_prefix(keep: Seq<bool>, i: int)
    requires
        0 <= i <= keep.len(),
    ensures
        set_flags(keep.take(i)) <= set_flags(keep),
        i < keep.len() ==> set_flags(keep.take(i + 1)) == set_flags(keep.take(i)) + if keep[i] {
            1nat
        } else {
            0nat
        },
    decreases keep.len(),
{
    if i < keep.len() {
        assert(keep.take(i + 1).drop_last() =~= keep.take(i));
        if i + 1 == keep.len() {
            assert(keep.take(i + 1) =~= keep);
        } else {
            lemma_set_flags_prefix(keep.drop_last(), i + 1);
            assert(keep.drop_last().take(i + 1) =~= keep.take(i + 1));
        }
    } else {
        assert(keep.take(i) =~= keep);
    }
}

/// Every kept issue is published, and nothing else: there is one diagnostic
/// per set flag of `keep`, in order, the one for the issue at `i` standing
/// after those of the kept issues before it. When at least one issue is
/// kept, these are exactly the diagnostics that are published.
pub proof fn lemma_every_kept_issue_published(
    uri: Seq<char>,
    source: Seq<char>,
    issues: Seq<IssueView>,
    errors: Seq<Seq<char>>,
    keep: Seq<bool>,
)
    requires
        keep.len() == issues.len(),
    ensures
        kept_diagnostics(issues, keep, source).len() == set_flags(keep),
        forall|i: int|
            0 <= i < keep.len() && #[trigger] keep[i] ==> kept_diagnostics(issues, keep, source)[set_flags(
                keep.take(i),
            ) as int] == issue_diagnostic(issues[i], source),
        set_flags(keep) > 0 ==> spec_publish_analysis(uri, source, issues, errors, keep)
            == spec_publish(uri, kept_diagnostics(issues, keep, source)),
    decreases keep.len(),
{
    if keep.len() > 0 {
        let front = keep.drop_last();
        let earlier = issues.drop_last();
        lemma_every_kept_issue_published(uri, source, earlier, errors, front);
        let rest = kept_diagnostics(earlier, front, source);
        let all = kept_diagnostics(issues, keep, source);
        let n = keep.len() - 1;
        assert forall|i: int| 0 <= i < keep.len() && #[trigger] keep[i] implies all[set_flags(
            keep.take(i),
        ) as int] == issue_diagnostic(issues[i], source) by {
            if i < n {
                assert(front[i] == keep[i]);
                assert(front.take(i) =~= keep.take(i));
                assert(earlier[i] == issues[i]);
                lemma_set_flags_prefix(front, i);
                lemma_set_flags_prefix(front, i + 1);
            } else {
                assert(keep.take(i) =~= front);
            }
        }
    }
}

/// When no issue is kept, PHPStan's own errors are published as one
/// diagnostic on the first line, one error per line of its message; with no
/// errors either, the document's diagnostics are cleared.
pub proof fn lemma_errors_published_when_nothing_kept(
    uri: Seq<char>,
    source: Seq<char>,
    issues: Seq<IssueView>,
    errors: Seq<Seq<char>>,
    keep: Seq<bool>,
)
    requires
        keep.len() == issues.len(),
        set_flags(keep) == 0,
    ensures
        errors.len() == 0 ==> spec_publish_analysis(uri, source, issues, errors, keep)
            == spec_publish(uri, Seq::empty()),
        errors.len() > 0 ==> spec_publish_analysis(uri, source, issues, errors, keep)
            == spec_publish(
            uri,
            seq![
                spec_diagnostic(
                    0,
                    spec_line_character_range(source, 0).0 as nat,
                    spec_line_character_range(source, 0).1 as nat,
                    joined(errors, "\n"@),
                    None,
                ),
            ],
        ),
        errors.len() == 1 ==> joined(errors, "\n"@) == errors[0],
{
    lemma_every_kept_issue_published(uri, source, issues, errors, keep);
    assert(kept_diagnostics(issues, keep, source) =~= Seq::<JsonView>::empty());
}

/// The diagnostic of an issue is an error from PHPStan with the issue's
/// message and identifier, on the issue's line counted from zero (PHPStan
/// counts from one; a line 0 is taken as the first), spanning the
/// characters of that line that `line_character_range` gives.
pub proof fn lemma_issue_diagnostic_fields(issue: IssueView, source: Seq<char>)
    ensures
        ({
            let d = issue_diagnostic(issue, source);
            let line = if issue.line >= 1 {
                (issue.line - 1) as nat
            } else {
                0nat
            };
            let range = spec_line_character_range(source, line);
            let start = member(member(d, "range"@), "start"@);
            let end = member(member(d, "range"@), "end"@);
            &&& issue.line >= 1 ==> line == issue.line - 1
            &&& field(d, "message"@) == Some(jstr(issue.message))
            &&& field(d, "code"@) == Some(code_value(issue.identifier))
            &&& field(d, "severity"@) == Some(number(1))
            &&& field(d, "source"@) == Some(jstr("phpstan"@))
            &&& field(start, "line"@) == Some(number(line))
            &&& field(end, "line"@) == Some(number(line))
            &&& field(start, "character"@) == Some(number(range.0 as nat))
            &&& field(end, "character"@) == Some(number(range.1 as nat))
        }),
{
    reveal_strlit("range");
    reveal_strlit("severity");
    reveal_strlit("source");
    reveal_strlit("code");
    reveal_strlit("message");
    reveal_strlit("start");
    reveal_strlit("end");
    reveal_strlit("line");
    reveal_strlit("character");
    assert("range"@.len() == 5 && "severity"@.len() == 8 && "source"@.len() == 6);
    assert("code"@.len() == 4 && "message"@.len() == 7);
    assert("start"@.len() == 5 && "end"@.len() == 3);
    assert("line"@.len() == 4 && "character"@.len() == 9);
    let line = if issue.line >= 1 {
        (issue.line - 1) as nat
    } else {
        0nat
    };
    let range = spec_line_character_range(source, line);
    let (a, b) = (range.0 as nat, range.1 as nat);
    let ms = seq![
        ("range"@, object(seq![("start"@, position(line, a)), ("end"@, position(line, b))])),
        ("severity"@, number(1)),
        ("source"@, jstr("phpstan"@)),
        ("code"@, code_value(issue.identifier)),
        ("message"@, jstr(issue.message)),
    ];
    let m1 = ms.drop_first();
    let m2 = m1.drop_first();
    let m3 = m2.drop_first();
    let m4 = m3.drop_first();
    assert(m3[0] == ms[3] && m2[0] == ms[2] && m1[0] == ms[1] && m4[0] == ms[4]);
    assert(find_member(m4, "message"@) == Some(jstr(issue.message)));
    assert(find_member(m3, "message"@) == Some(jstr(issue.message)));
    assert(find_member(m2, "message"@) == Some(jstr(issue.message)));
    assert(find_member(m1, "message"@) == Some(jstr(issue.message)));
    assert(find_member(m3, "code"@) == Some(code_value(issue.identifier)));
    assert(find_member(m2, "code"@) == Some(code_value(issue.identifier)));
    assert(find_member(m1, "code"@) == Some(code_value(issue.identifier)));
    assert(find_member(m2, "source"@) == Some(jstr("phpstan"@)));
    assert(find_member(m1, "source"@) == Some(jstr("phpstan"@)));
    assert(find_member(m1, "severity"@) == Some(number(1)));
    let r = seq![("start"@, position(line, a)), ("end"@, position(line, b))];
    assert(find_member(r.drop_first(), "end"@) == Some(position(line, b)));
    assert(find_member(r, "end"@) == Some(position(line, b)));
    let p = seq![("line"@, number(line)), ("character"@, number(a))];
    assert(find_member(p.drop_first(), "character"@) == Some(number(a)));
    assert(find_member(p, "character"@) == Some(number(a)));
    let q = seq![("line"@, number(line)), ("character"@, number(b))];
    assert(find_member(q.drop_first(), "character"@) == Some(number(b)));
    assert(find_member(q, "character"@) == Some(number(b)));
}

/// The texts of `parts`, with `separator` between each two.
pub open spec fn joined(parts: Seq<Seq<char>>, separator: Seq<char>) -> Seq<char>
    decreases parts.len(),
{
    if parts.len() == 0 {
        Seq::empty()
    } else if parts.len() == 1 {
        parts[0]
    } else {
        joined(parts.drop_last(), separator) + separator + parts.last()
    }
}

/// What is published for `uri` after an analysis: the diagnostics of the kept
/// issues; when there are none and PHPStan reported errors of its own, one
/// diagnostic on the first line that holds them all, one per line.
pub open spec fn spec_publish_analysis(
    uri: Seq<char>,
    source: Seq<char>,
    issues: Seq<IssueView>,
    errors: Seq<Seq<char>>,
    keep: Seq<bool>,
) -> JsonView {
    let found = kept_diagnostics(issues, keep, source);
    let first = spec_line_character_range(source, 0);
    let diagnostics = if found.len() == 0 && errors.len() > 0 {
        seq![spec_diagnostic(0, first.0 as nat, first.1 as nat, joined(errors, "\n"@), None)]
    } else {
        found
    };
    spec_publish(uri, diagnostics)
}

/// Which issues may be kept for the document at `uri`: one flag per issue;
/// none when the URI names no file; every issue whose file has the same
/// components as the document's path.
pub open spec fn admissible_keep(uri: Seq<char>, issues: Seq<IssueView>, keep: Seq<bool>) -> bool {
    &&& keep.len() == issues.len()
    &&& forall|i: int|
        0 <= i < keep.len() ==> (#[trigger] keep[i] ==> uri_file_path(uri) is Some)
            && (uri_file_path(uri) matches Some(f) && same_path(f, issues[i].file) ==> keep[i])
}

fn number_member(m: &mut Members, key: &str, n: u64)
    ensures
        final(m).view_members() == old(m).view_members().push((key@, number(n as nat))),
{
    m.add(key, JsonValue::number(n));
}

fn text_member(m: &mut Members, key: &str, t: &str)
    ensures
        final(m).view_members() == old(m).view_members().push((key@, jstr(t@))),
{
    m.add(key, JsonValue::text(t));
}

fn position_value(line: u64, character: u64) -> (r: JsonValue)
    ensures
        r@ == position(line as nat, character as nat),
{
    let mut m = Members::new();
    number_member(&mut m, "line", line);
    number_member(&mut m, "character", character);
    assert(m.view_members() =~= seq![
        ("line"@, number(line as nat)),
        ("character"@, number(character as nat)),
    ]);
    m.build()
}

/// An error diagnostic of PHPStan on `line`, from `start` to `end`.
pub fn diagnostic(line: u64, start: u64, end: u64, message: &str, code: Option<&str>) -> (r: JsonValue)
    ensures
        r@ == spec_diagnostic(line as nat, start as nat, end as nat, message@, opt_text(code)),
{
    let mut range = Members::new();
    range.add("start", position_value(line, start));
    range.add("end", position_value(line, end));
    assert(range.view_members() =~= seq![("start"@, position(line as nat, start as nat)), ("end"@, position(line as nat, end as nat))]);
    let mut m = Members::new();
    m.add("range", range.build());
    number_member(&mut m, "severity", 1);
    text_member(&mut m, "source", "phpstan");
    match code {
        Some(c) => text_member(&mut m, "code", c),
        None => m.add("code", JsonValue::Null),
    }
    text_member(&mut m, "message", message);
    let ghost code_view = code_value(opt_text(code));
    assert(m.view_members() =~= seq![
        ("range"@, object(seq![("start"@, position(line as nat, start as nat)), ("end"@, position(line as nat, end as nat))])),
        ("severity"@, number(1)),
        ("source"@, jstr("phpstan"@)),
        ("code"@, code_view),
        ("message"@, jstr(message@)),
    ]);
    let r = m.build();
    assert(r@ == spec_diagnostic(line as nat, start as nat, end as nat, message@, opt_text(code)));
    r
}

/// The response to the request `id`.
pub fn response(id: JsonValue, result: JsonValue) -> (r: JsonValue)
    ensures
        r@ == spec_response(id@, result@),
{
    let mut m = Members::new();
    text_member(&mut m, "jsonrpc", "2.0");
    m.add("id", id);
    m.add("result", result);
    assert(m.view_members() =~= seq![("jsonrpc"@, jstr("2.0"@)), ("id"@, id@), ("result"@, result@)]);
    m.build()
}

/// The notification that publishes `diagnostics` for `uri`.
pub fn publish(uri: &str, diagnostics: Vec<JsonValue>) -> (r: JsonValue)
    ensures
        r@ == spec_publish(uri@, json_views(diagnostics@)),
{
    proof {
        crate::json::lemma_array_view(diagnostics);
    }
    let mut p = Members::new();
    text_member(&mut p, "uri", uri);
    let ghost ds = json_views(diagnostics@);
    p.add("diagnostics", JsonValue::Array(diagnostics));
    assert(p.view_members() =~= seq![("uri"@, jstr(uri@)), ("diagnostics"@, JsonView::Array(ds))]);
    let mut m = Members::new();
    text_member(&mut m, "jsonrpc", "2.0");
    text_member(&mut m, "method", "textDocument/publishDiagnostics");
    m.add("params", p.build());
    assert(m.view_members() =~= seq![
        ("jsonrpc"@, jstr("2.0"@)),
        ("method"@, jstr("textDocument/publishDiagnostics"@)),
        ("params"@, object(seq![("uri"@, jstr(uri@)), ("diagnostics"@, JsonView::Array(ds))])),
    ]);
    m.build()
}

/// The notification that publishes one error on the first character of `uri`.
pub fn publish_error(uri: &str, message: &str) -> (r: JsonValue)
    ensures
        r@ == spec_publish_error(uri@, message@),
{
    let d = diagnostic(0, 0, 1, message, None);
    let ghost dv = d@;
    let mut v: Vec<JsonValue> = Vec::new();
    v.push(d);
    assert(json_views(v@) =~= seq![dv]);
    publish(uri, v)
}

/// The result of `initialize`.
pub fn initialize_result() -> (r: JsonValue)
    ensures
        r@ == spec_initialize_result(),
{
    let mut sync = Members::new();
    sync.add("openClose", JsonValue::Bool(true));
    number_member(&mut sync, "change", 1);
    assert(sync.view_members() =~= seq![("openClose"@, JsonView::Bool(true)), ("change"@, number(1))]);
    let mut capabilities = Members::new();
    capabilities.add("textDocumentSync", sync.build());
    assert(capabilities.view_members() =~= seq![("textDocumentSync"@, object(seq![("openClose"@, JsonView::Bool(true)), ("change"@, number(1))]))]);
    let mut info = Members::new();
    text_member(&mut info, "name", "phpstan-diagnostics-lsp");
    text_member(&mut info, "version", "0.1.0");
    assert(info.view_members() =~= seq![("name"@, jstr("phpstan-diagnostics-lsp"@)), ("version"@, jstr(server_version()))]);
    let mut m = Members::new();
    m.add("capabilities", capabilities.build());
    m.add("serverInfo", info.build());
    assert(m.view_members() =~= seq![
        ("capabilities"@, object(seq![("textDocumentSync"@, object(seq![("openClose"@, JsonView::Bool(true)), ("change"@, number(1))]))])),
        ("serverInfo"@, object(seq![("name"@, jstr("phpstan-diagnostics-lsp"@)), ("version"@, jstr(server_version()))])),
    ]);
    m.build()
}

/// The diagnostic for an issue.
pub fn diagnostic_from_issue(issue: &Issue, source: &str) -> (r: JsonValue)
    requires
        source@.len() <= isize::MAX,
    ensures
        r@ == issue_diagnostic(issue@, source@),
{
    let line = if issue.line >= 1 {
        issue.line - 1
    } else {
        0
    };
    let (start, end) = line_character_range(source, line);
    let code = match &issue.identifier {
        Some(c) => Some(c.as_str()),
        None => None,
    };
    diagnostic(line, start, end, issue.message.as_str(), code)
}

/// The texts of `parts`, with `separator` between each two.
pub fn join_texts(parts: &Vec<String>, separator: &str) -> (r: String)
    ensures
        r@ == joined(texts(parts@), separator@),
{
    let mut r = String::new();
    let mut i: usize = 0;
    while i < parts.len()
        invariant
            i <= parts@.len(),
            r@ == joined(texts(parts@).take(i as int), separator@),
        decreases parts@.len() - i,
    {
        proof {
            assert(texts(parts@).take(i + 1).drop_last() =~= texts(parts@).take(i as int));
        }
        if i > 0 {
            r.append(separator);
        }
        r.append(parts[i].as_str());
        i = i + 1;
    }
    assert(texts(parts@).take(i as int) =~= texts(parts@));
    r
}

/// Whether a reported file is the document's file, given the canonical forms
/// of both paths (none where a path has none): the same components, or
/// canonical forms with the same components.
pub open spec fn spec_same_file(
    document: Seq<char>,
    reported: Seq<char>,
    canonical_document: Option<Seq<char>>,
    canonical_reported: Option<Seq<char>>,
) -> bool {
    same_path(document, reported) || match (canonical_document, canonical_reported) {
        (Some(a), Some(b)) => same_path(a, b),
        _ => false,
    }
}

/// Whether a reported file is the document's file, given the canonical forms
/// of both paths.
pub fn same_file_given(
    document: &str,
    reported: &str,
    canonical_document: Option<&str>,
    canonical_reported: Option<&str>,
) -> (r: bool)
    ensures
        r == spec_same_file(
            document@,
            reported@,
            opt_text(canonical_document),
            opt_text(canonical_reported),
        ),
{
    if paths_equal(document, reported) {
        return true;
    }
    match (canonical_document, canonical_reported) {
        (Some(a), Some(b)) => paths_equal(a, b),
        _ => false,
    }
}

/// Whether a reported file is the document's file: the same components, or
/// canonical paths (as the file system gives them at the time of the call)
/// with the same components.
pub fn same_file(document: &str, reported: &str) -> (r: bool)
    ensures
        exists|canonical_document: Option<Seq<char>>, canonical_reported: Option<Seq<char>>|
            r == spec_same_file(document@, reported@, canonical_document, canonical_reported),
        same_path(document@, reported@) ==> r,
{
    if paths_equal(document, reported) {
        assert(spec_same_file(document@, reported@, None, None));
        return true;
    }
    let canonical_document = canonical_path(document);
    let canonical_reported = canonical_path(reported);
    let r = same_file_given(
        document,
        reported,
        match &canonical_document {
            Some(a) => Some(a.as_str()),
            None => None,
        },
        match &canonical_reported {
            Some(b) => Some(b.as_str()),
            None => None,
        },
    );
    assert(r == spec_same_file(
        document@,
        reported@,
        canonical_document.deep_view(),
        canonical_reported.deep_view(),
    ));
    r
}

/// What is published for `uri` after an analysis, given which issues belong
/// to the document (`keep`, one flag per issue).
pub fn publish_analysis_with(uri: &str, source: &str, analysis: &Analysis, keep: &Vec<bool>) -> (r:
    JsonValue)
    requires
        source@.len() <= isize::MAX,
        keep@.len() == analysis.issues@.len(),
    ensures
        r@ == spec_publish_analysis(
            uri@,
            source@,
            issue_views(analysis.issues@),
            texts(analysis.errors@),
            keep@,
        ),
{
    let ghost issues = issue_views(analysis.issues@);
    let mut diagnostics: Vec<JsonValue> = Vec::new();
    let mut i: usize = 0;
    while i < analysis.issues.len()
        invariant
            i <= analysis.issues@.len() == keep@.len(),
            source@.len() <= isize::MAX,
            issues == issue_views(analysis.issues@),
            json_views(diagnostics@) == kept_diagnostics(
                issues.take(i as int),
                keep@.take(i as int),
                source@,
            ),
        decreases analysis.issues@.len() - i,
    {
        proof {
            assert(issues.take(i + 1).drop_last() =~= issues.take(i as int));
            assert(keep@.take(i + 1).drop_last() =~= keep@.take(i as int));
        }
        if keep[i] {
            let d = diagnostic_from_issue(&analysis.issues[i], source);
            let ghost prior = diagnostics@;
            diagnostics.push(d);
            proof {
                assert(json_views(diagnostics@) =~= json_views(prior).push(d@));
            }
        }
        i = i + 1;
    }
    proof {
        assert(issues.take(i as int) =~= issues);
        assert(keep@.take(i as int) =~= keep@);
    }
    if diagnostics.len() == 0 && analysis.errors.len() > 0 {
        let (start, end) = line_character_range(source, 0);
        let message = join_texts(&analysis.errors, "\n");
        let d = diagnostic(0, start, end, message.as_str(), None);
        let ghost dv = d@;
        let mut v: Vec<JsonValue> = Vec::new();
        v.push(d);
        assert(json_views(v@) =~= seq![dv]);
        publish(uri, v)
    } else {
        publish(uri, diagnostics)
    }
}

/// What is published for `uri` after an analysis: the diagnostics of the
/// issues that PHPStan reported for the document's own file, or its errors.
pub fn publish_analysis(uri: &str, source: &str, analysis: &Analysis) -> (r: JsonValue)
    requires
        source@.len() <= isize::MAX,
    ensures
        exists|keep: Seq<bool>|
            admissible_keep(uri@, issue_views(analysis.issues@), keep) && r@
                == spec_publish_analysis(
                uri@,
                source@,
                issue_views(analysis.issues@),
                texts(analysis.errors@),
                keep,
            ),
{
    let file = path_from_uri(uri);
    let mut keep: Vec<bool> = Vec::new();
    let mut i: usize = 0;
    while i < analysis.issues.len()
        invariant
            i <= analysis.issues@.len(),
            keep@.len() == i,
            file.deep_view() == uri_file_path(uri@),
            forall|j: int|
                0 <= j < i ==> (#[trigger] keep@[j] ==> uri_file_path(uri@) is Some) && (
                uri_file_path(uri@) matches Some(f) && same_path(
                    f,
                    issue_views(analysis.issues@)[j].file,
                ) ==> keep@[j]),
        decreases analysis.issues@.len() - i,
    {
        let k = match &file {
            Some(f) => same_file(f.as_str(), analysis.issues[i].file.as_str()),
            None => false,
        };
        keep.push(k);
        i = i + 1;
    }
    assert(admissible_keep(uri@, issue_views(analysis.issues@), keep@));
    publish_analysis_with(uri, source, analysis, &keep)
}


// ---------------------------------------------------------------------------
// The server
// ---------------------------------------------------------------------------

/// The PHPStan settings that a client may give as initialization options.
#[derive(Debug, Default)]
pub struct InitializationOptions {
    pub phpstan_path: Option<String>,
    pub phpstan_config_path: Option<String>,
    pub memory_limit: Option<String>,
}

/// Initialization options as plain text.
pub struct InitializationView {
    pub phpstan_path: Option<Seq<char>>,
    pub phpstan_config_path: Option<Seq<char>>,
    pub memory_limit: Option<Seq<char>>,
}

impl View for InitializationOptions {
    type V = InitializationView;

    open spec fn view(&self) -> InitializationView {
        InitializationView {
            phpstan_path: self.phpstan_path.deep_view(),
            phpstan_config_path: self.phpstan_config_path.deep_view(),
            memory_limit: self.memory_limit.deep_view(),
        }
    }
}

/// Diagnostics-only LSP server; PHPStan remains the analysis engine.
pub struct Server {
    root: String,
    documents: Documents,
    analyzer: Analyzer,
    command_line_options: CommandLineOptions,
}

/// The state of the server as plain values.
pub struct ServerView {
    pub root: Seq<char>,
    pub documents: Map<Seq<char>, Seq<char>>,
    pub analyzer: AnalyzerView,
    pub options: OptionsView,
}

impl View for Server {
    type V = ServerView;

    closed spec fn view(&self) -> ServerView {
        ServerView {
            root: self.root@,
            documents: self.documents@,
            analyzer: self.analyzer@,
            options: self.command_line_options@,
        }
    }
}

/// What the program does after a message.
pub enum Action {
    /// Write this message to the client.
    Send(JsonValue),
    /// Run PHPStan on the document `uri`, whose file is `file`, with the
    /// buffer `source` (none: the file as it is on disk), and publish the
    /// outcome with [`publish_outcome`].
    Analyse { uri: String, file: String, source: Option<String> },
    /// Stop serving.
    Exit,
    /// Nothing.
    Nothing,
}

/// An [`Action`] as plain values.
pub enum ActionView {
    Send(JsonView),
    Analyse { uri: Seq<char>, file: Seq<char>, source: Option<Seq<char>> },
    Exit,
    Nothing,
}

impl View for Action {
    type V = ActionView;

    open spec fn view(&self) -> ActionView {
        match self {
            Action::Send(v) => ActionView::Send(v@),
            Action::Analyse { uri, file, source } => ActionView::Analyse {
                uri: uri@,
                file: file@,
                source: source.deep_view(),
            },
            Action::Exit => ActionView::Exit,
            Action::Nothing => ActionView::Nothing,
        }
    }
}

/// `first`, or else `second`.
pub open spec fn or_else(first: Option<Seq<char>>, second: Option<Seq<char>>) -> Option<Seq<char>> {
    match first {
        Some(x) => Some(x),
        None => second,
    }
}

/// The state after `initialize`: the workspace root from the parameters (or
/// the one before), and each PHPStan setting from the command line, or else
/// from the initialization options.
pub open spec fn spec_configure(s: ServerView, params: JsonView, init: InitializationView) -> ServerView {
    let root = match spec_workspace_root(params) {
        Some(r) => r,
        None => s.root,
    };
    ServerView {
        root,
        analyzer: AnalyzerView {
            root,
            phpstan_path: or_else(s.options.phpstan_path, init.phpstan_path),
            config_path: or_else(s.options.configuration_path, init.phpstan_config_path),
            memory_limit: or_else(s.options.memory_limit, init.memory_limit),
        },
        ..s
    }
}

/// The error published for a URI that names no local file.
pub open spec fn not_a_file_message() -> Seq<char> {
    "Only file:// document URIs are supported."@
}

/// How diagnostics for `uri` are obtained: an error when it names no file,
/// else an analysis of its buffer (or of the file on disk when it is not
/// open).
pub open spec fn spec_diagnostics_action(s: ServerView, uri: Seq<char>) -> ActionView {
    diagnostics_action_for(s, uri, uri_file_path(uri))
}

/// How diagnostics for `uri` are obtained, given the file path it names.
pub open spec fn diagnostics_action_for(s: ServerView, uri: Seq<char>, file: Option<Seq<char>>) -> ActionView {
    match file {
        None => ActionView::Send(spec_publish_error(uri, not_a_file_message())),
        Some(file) => ActionView::Analyse {
            uri,
            file,
            source: if s.documents.contains_key(uri) {
                Some(s.documents[uri])
            } else {
                None
            },
        },
    }
}

/// The reply to a request when there is one: `result` for the request's id.
pub open spec fn reply(message: JsonView, result: JsonView) -> ActionView {
    match request_id(message) {
        Some(id) => ActionView::Send(spec_response(id, result)),
        None => ActionView::Nothing,
    }
}

/// What a message does: the next state of the server, and the action.
pub open spec fn spec_handle(s: ServerView, message: JsonView, init: InitializationView) -> (
    ServerView,
    ActionView,
) {
    match message_method(message) {
        Method::Initialize => (
            spec_configure(s, params(message), init),
            reply(message, spec_initialize_result()),
        ),
        Method::Initialized => (s, ActionView::Nothing),
        Method::Shutdown => (s, reply(message, JsonView::Null)),
        Method::Exit => (s, ActionView::Exit),
        Method::DidOpen | Method::DidChange => match (
            spec_document_uri(message),
            document_text(message),
        ) {
            (Some(uri), Some(text)) => {
                let next = ServerView { documents: s.documents.insert(uri, text), ..s };
                (next, spec_diagnostics_action(next, uri))
            },
            _ => (s, ActionView::Nothing),
        },
        Method::DidSave => match spec_document_uri(message) {
            Some(uri) => (s, spec_diagnostics_action(s, uri)),
            None => (s, ActionView::Nothing),
        },
        Method::DidClose => match spec_document_uri(message) {
            Some(uri) => (
                ServerView { documents: s.documents.remove(uri), ..s },
                ActionView::Send(spec_publish(uri, Seq::empty())),
            ),
            None => (s, ActionView::Nothing),
        },
        Method::Unknown => (s, reply(message, JsonView::Null)),
    }
}

fn first_of(first: &Option<String>, second: Option<String>) -> (r: Option<String>)
    ensures
        r.deep_view() == or_else(first.deep_view(), second.deep_view()),
{
    match first {
        Some(t) => Some(t.clone()),
        None => second,
    }
}

impl Server {
    /// A server for the workspace at `root` (the directory it was started
    /// in), with no open documents.
    pub fn new(command_line_options: CommandLineOptions, root: String) -> (r: Server)
        ensures
            r@ == (ServerView {
                root: root@,
                documents: Map::empty(),
                analyzer: AnalyzerView {
                    root: root@,
                    phpstan_path: None,
                    config_path: None,
                    memory_limit: None,
                },
                options: command_line_options@,
            }),
    {
        Server {
            analyzer: Analyzer::new(root.clone()),
            root,
            documents: Documents::new(),
            command_line_options,
        }
    }

    /// The analyzer that runs PHPStan for the workspace.
    pub fn analyzer(&self) -> (r: &Analyzer)
        ensures
            r@ == self@.analyzer,
    {
        &self.analyzer
    }

    /// The open documents.
    pub fn documents(&self) -> (r: &Documents)
        ensures
            r@ == self@.documents,
    {
        &self.documents
    }

    fn configure(&mut self, message: &JsonValue, init: InitializationOptions)
        ensures
            final(self)@ == spec_configure(old(self)@, params(message@), init@),
    {
        let root = match message.get("params") {
            Some(p) => workspace_root(p),
            None => None,
        };
        if let Some(r) = root {
            self.root = r;
        }
        let phpstan_path = first_of(&self.command_line_options.phpstan_path, init.phpstan_path);
        let config_path = first_of(
            &self.command_line_options.configuration_path,
            init.phpstan_config_path,
        );
        let memory_limit = first_of(&self.command_line_options.memory_limit, init.memory_limit);
        self.analyzer.configure(self.root.clone(), phpstan_path, config_path, memory_limit);
    }

    fn diagnostics_action(&self, uri: &str) -> (r: Action)
        ensures
            r@ == spec_diagnostics_action(self@, uri@),
    {
        self.diagnostics_action_for(uri, path_from_uri(uri))
    }

    /// How diagnostics for `uri` are obtained, given the file path it names.
    pub fn diagnostics_action_for(&self, uri: &str, file: Option<String>) -> (r: Action)
        ensures
            r@ == diagnostics_action_for(self@, uri@, file.deep_view()),
    {
        match file {
            None => Action::Send(publish_error(uri, "Only file:// document URIs are supported.")),
            Some(file) => Action::Analyse {
                uri: uri.to_owned(),
                file,
                source: match self.documents.get(uri) {
                    Some(t) => Some(t.clone()),
                    None => None,
                },
            },
        }
    }

    /// Handles one client message; `init` holds the initialization options
    /// that the message's `params.initializationOptions` give (all unset
    /// when it gives none or they do not read as such).
    pub fn handle(&mut self, message: &JsonValue, init: InitializationOptions) -> (r: Action)
        ensures
            (final(self)@, r@) == spec_handle(old(self)@, message@, init@),
    {
        let name = match message.get("method") {
            Some(m) => m.as_str(),
            None => None,
        };
        let method = Method::from(name);
        let id = match message.get("id") {
            Some(v) => Some(v.copy()),
            None => None,
        };
        match method {
            Method::Initialize => {
                self.configure(message, init);
                match id {
                    Some(id) => Action::Send(response(id, initialize_result())),
                    None => Action::Nothing,
                }
            },
            Method::Initialized => Action::Nothing,
            Method::Shutdown => match id {
                Some(id) => Action::Send(response(id, JsonValue::Null)),
                None => Action::Nothing,
            },
            Method::Exit => Action::Exit,
            Method::DidOpen | Method::DidChange => {
                match update_document(message, &mut self.documents) {
                    Some(uri) => self.diagnostics_action(uri.as_str()),
                    None => Action::Nothing,
                }
            },
            Method::DidSave => match document_uri(message) {
                Some(uri) => self.diagnostics_action(uri),
                None => Action::Nothing,
            },
            Method::DidClose => match document_uri(message) {
                Some(uri) => {
                    self.documents.remove(uri);
                    let r = publish(uri, Vec::new());
                    assert(json_views(Seq::<JsonValue>::empty()) =~= Seq::<JsonView>::empty());
                    Action::Send(r)
                },
                None => Action::Nothing,
            },
            Method::Unknown => match id {
                Some(id) => Action::Send(response(id, JsonValue::Null)),
                None => Action::Nothing,
            },
        }
    }
}

/// What is published for `uri` after PHPStan ran on `source`: its findings,
/// or the error that stopped it.
pub fn publish_outcome(uri: &str, source: &str, outcome: &Result<Analysis, String>) -> (r: JsonValue)
    requires
        source@.len() <= isize::MAX,
    ensures
        outcome matches Err(e) ==> r@ == spec_publish_error(uri@, e@),
        outcome matches Ok(a) ==> exists|keep: Seq<bool>|
            admissible_keep(uri@, issue_views(a.issues@), keep) && r@ == spec_publish_analysis(
                uri@,
                source@,
                issue_views(a.issues@),
                texts(a.errors@),
                keep,
            ),
{
    match outcome {
        Ok(a) => publish_analysis(uri, source, a),
        Err(e) => publish_error(uri, e.as_str()),
    }
}


// ---------------------------------------------------------------------------
// Laws
// ---------------------------------------------------------------------------

/// Opening or changing a document stores the text the message carries under
/// its URI, and asks for that very text to be analysed when the URI names a
/// file.
pub proof fn lemma_change_stores_text(
    s: ServerView,
    message: JsonView,
    init: InitializationView,
    uri: Seq<char>,
    text: Seq<char>,
)
    requires
        message_method(message) == Method::DidOpen || message_method(message)
            == Method::DidChange,
        spec_document_uri(message) == Some(uri),
        document_text(message) == Some(text),
    ensures
        spec_handle(s, message, init).0.documents == s.documents.insert(uri, text),
        spec_handle(s, message, init).0.documents[uri] == text,
        uri_file_path(uri) matches Some(file) ==> spec_handle(s, message, init).1
            == (ActionView::Analyse { uri, file, source: Some(text) }),
{
}

/// Saving a document asks for its open buffer to be analysed, or for the file
/// on disk when it is not open.
pub proof fn lemma_save_analyses_buffer(
    s: ServerView,
    message: JsonView,
    init: InitializationView,
    uri: Seq<char>,
    file: Seq<char>,
)
    requires
        message_method(message) == Method::DidSave,
        spec_document_uri(message) == Some(uri),
        uri_file_path(uri) == Some(file),
    ensures
        spec_handle(s, message, init) == (s, ActionView::Analyse {
            uri,
            file,
            source: if s.documents.contains_key(uri) {
                Some(s.documents[uri])
            } else {
                None
            },
        }),
{
}

/// A document whose URI names no local file gets one error diagnostic saying
/// that only `file://` URIs are supported.
pub proof fn lemma_only_file_uris(
    s: ServerView,
    message: JsonView,
    init: InitializationView,
    uri: Seq<char>,
)
    requires
        message_method(message) == Method::DidSave,
        spec_document_uri(message) == Some(uri),
        uri_file_path(uri) is None,
    ensures
        spec_handle(s, message, init).1 == ActionView::Send(
            spec_publish_error(uri, not_a_file_message()),
        ),
{
}

/// Closing a document forgets its text and clears its diagnostics.
pub proof fn lemma_close_forgets(
    s: ServerView,
    message: JsonView,
    init: InitializationView,
    uri: Seq<char>,
)
    requires
        message_method(message) == Method::DidClose,
        spec_document_uri(message) == Some(uri),
    ensures
        spec_handle(s, message, init).0.documents == s.documents.remove(uri),
        !spec_handle(s, message, init).0.documents.contains_key(uri),
        spec_handle(s, message, init).1 == ActionView::Send(spec_publish(uri, Seq::empty())),
{
}

/// `initialize`, `shutdown` and unknown methods answer a request with one
/// response that carries the request's id, and a notification with nothing.
pub proof fn lemma_requests_get_one_response(
    s: ServerView,
    message: JsonView,
    init: InitializationView,
)
    requires
        message_method(message) == Method::Initialize || message_method(message)
            == Method::Shutdown || message_method(message) == Method::Unknown,
    ensures
        request_id(message) matches Some(id) ==> (spec_handle(s, message, init).1 matches ActionView::Send(
            v,
        ) && field(v, "id"@) == Some(id) && field(v, "jsonrpc"@) == Some(jstr("2.0"@))),
        request_id(message) is None ==> spec_handle(s, message, init).1 == ActionView::Nothing,
{
    reveal_strlit("id");
    reveal_strlit("jsonrpc");
    assert("id"@.len() == 2);
    assert("jsonrpc"@.len() == 7);
    if let Some(id) = request_id(message) {
        let result = if message_method(message) == Method::Initialize {
            spec_initialize_result()
        } else {
            JsonView::Null
        };
        let members = seq![("jsonrpc"@, jstr("2.0"@)), ("id"@, id), ("result"@, result)];
        let rest = members.drop_first();
        assert(rest[0] == ("id"@, id));
        assert(members[0].0 != "id"@);
        assert(find_member(rest, "id"@) == Some(id));
        assert(find_member(members, "id"@) == Some(id));
        assert(find_member(members, "jsonrpc"@) == Some(jstr("2.0"@)));
    }
}

/// `exit` stops the server and changes nothing.
pub proof fn lemma_exit_stops(s: ServerView, message: JsonView, init: InitializationView)
    requires
        message_method(message) == Method::Exit,
    ensures
        spec_handle(s, message, init) == (s, ActionView::Exit),
{
}

/// Each PHPStan setting given on the command line takes precedence over the
/// matching initialization option; one not given there comes from the
/// initialization options.
pub proof fn lemma_command_line_takes_precedence(
    s: ServerView,
    message: JsonView,
    init: InitializationView,
)
    requires
        message_method(message) == Method::Initialize,
    ensures
        ({
            let a = spec_handle(s, message, init).0.analyzer;
            &&& a.phpstan_path == if s.options.phpstan_path is Some {
                s.options.phpstan_path
            } else {
                init.phpstan_path
            }
            &&& a.config_path == if s.options.configuration_path is Some {
                s.options.configuration_path
            } else {
                init.phpstan_config_path
            }
            &&& a.memory_limit == if s.options.memory_limit is Some {
                s.options.memory_limit
            } else {
                init.memory_limit
            }
            &&& a.root == spec_handle(s, message, init).0.root
        }),
{
}

/// A `rootUri` that names a local directory is the workspace root, whatever
/// `rootPath` or the workspace folders say.
pub proof fn lemma_root_uri_preferred(params: JsonView, uri: Seq<char>, path: Seq<char>)
    requires
        text_of(member(params, "rootUri"@)) == Some(uri),
        uri_file_path(uri) == Some(path),
    ensures
        spec_workspace_root(params) == Some(path),
{
}

/// `initialize` moves the server, and PHPStan with it, to the client's
/// workspace: the local path of `rootUri` when it names one; else
/// `rootPath`; else the local path of the first workspace folder's `uri`;
/// and when none of these is given, the root stays as it was.
pub proof fn lemma_initialize_sets_root(s: ServerView, message: JsonView, init: InitializationView)
    requires
        message_method(message) == Method::Initialize,
    ensures
        ({
            let next = spec_handle(s, message, init).0;
            let p = member(message, "params"@);
            let from_uri = match text_of(member(p, "rootUri"@)) {
                Some(u) => uri_file_path(u),
                None => None,
            };
            let root_path = text_of(member(p, "rootPath"@));
            let from_folder = match items_of(member(p, "workspaceFolders"@)) {
                Some(folders) => if folders.len() > 0 {
                    match text_of(member(folders[0], "uri"@)) {
                        Some(u) => uri_file_path(u),
                        None => None,
                    }
                } else {
                    None
                },
                None => None,
            };
            &&& next.analyzer.root == next.root
            &&& from_uri matches Some(r) ==> next.root == r
            &&& from_uri is None ==> (root_path matches Some(r) ==> next.root == r)
            &&& from_uri is None && root_path is None ==> (from_folder matches Some(r)
                ==> next.root == r)
            &&& from_uri is None && root_path is None && from_folder is None ==> next.root == s.root
        }),
{
}

/// `initialize` is answered, with the request's id, by capabilities that ask
/// the client for the notifications the server acts on: the opening and
/// closing of documents, and their changes as full text.
pub proof fn lemma_initialize_asks_for_open_close(
    s: ServerView,
    message: JsonView,
    init: InitializationView,
)
    requires
        message_method(message) == Method::Initialize,
        request_id(message) is Some,
    ensures
        spec_handle(s, message, init).1 matches ActionView::Send(reply) && ({
            let sync = member(
                member(member(reply, "result"@), "capabilities"@),
                "textDocumentSync"@,
            );
            &&& field(reply, "id"@) == request_id(message)
            &&& field(sync, "openClose"@) == Some(JsonView::Bool(true))
            &&& field(sync, "change"@) == Some(number(1))
            &&& field(member(member(reply, "result"@), "serverInfo"@), "name"@) == Some(
                jstr("phpstan-diagnostics-lsp"@),
            )
        }),
{
    reveal_strlit("capabilities");
    reveal_strlit("serverInfo");
    assert("capabilities"@.len() == 12 && "serverInfo"@.len() == 10);
    let top = seq![
        ("capabilities"@, object(seq![("textDocumentSync"@, object(seq![("openClose"@, JsonView::Bool(true)), ("change"@, number(1))]))])),
        ("serverInfo"@, object(seq![("name"@, jstr("phpstan-diagnostics-lsp"@)), ("version"@, jstr(server_version()))])),
    ];
    assert(top[0].0 != "serverInfo"@);
    assert(find_member(top.drop_first(), "serverInfo"@) == Some(top[1].1));
    assert(find_member(top, "serverInfo"@) == Some(top[1].1));
    lemma_literal_lengths();
    reveal_strlit("openClose");
    reveal_strlit("change");
    let id = request_id(message)->Some_0;
    let result = spec_initialize_result();
    lemma_response_has_id(id, result);
    let members = seq![("jsonrpc"@, jstr("2.0"@)), ("id"@, id), ("result"@, result)];
    let m1 = members.drop_first();
    let m2 = m1.drop_first();
    assert(members[0].0 != "result"@);
    assert(m1[0].0 != "result"@);
    assert(m2[0] == ("result"@, result));
    assert(find_member(m2, "result"@) == Some(result));
    assert(find_member(m1, "result"@) == Some(result));
    assert(find_member(members, "result"@) == Some(result));
    let sync_members = seq![("openClose"@, JsonView::Bool(true)), ("change"@, number(1))];
    assert("openClose"@.len() == 9);
    assert("change"@.len() == 6);
    assert(sync_members[0].0 != "change"@);
    assert(sync_members.drop_first()[0] == ("change"@, number(1)));
    assert(find_member(sync_members.drop_first(), "change"@) == Some(number(1)));
    assert(find_member(sync_members, "change"@) == Some(number(1)));
}

/// Only `initialize` changes the workspace root and the PHPStan settings, and
/// only opening, changing and closing documents changes the open documents.
pub proof fn lemma_frame(s: ServerView, message: JsonView, init: InitializationView)
    ensures
        message_method(message) != Method::Initialize ==> spec_handle(s, message, init).0.root
            == s.root && spec_handle(s, message, init).0.analyzer == s.analyzer,
        spec_handle(s, message, init).0.options == s.options,
        (message_method(message) != Method::DidOpen && message_method(message) != Method::DidChange
            && message_method(message) != Method::DidClose) ==> spec_handle(
            s,
            message,
            init,
        ).0.documents == s.documents,
{
}


/// The actions of the server on `messages`, one per message, in order, each
/// message read with its initialization options, up to and with `exit`.
pub open spec fn run_actions(
    s: ServerView,
    messages: Seq<JsonView>,
    inits: Seq<InitializationView>,
) -> Seq<ActionView>
    decreases messages.len(),
{
    if messages.len() == 0 || inits.len() == 0 {
        Seq::empty()
    } else {
        let (next, action) = spec_handle(s, messages[0], inits[0]);
        if action is Exit {
            seq![action]
        } else {
            seq![action] + run_actions(next, messages.drop_first(), inits.drop_first())
        }
    }
}

/// The state of the server after `messages`, each read with its
/// initialization options, up to and with `exit`.
pub open spec fn run_state(
    s: ServerView,
    messages: Seq<JsonView>,
    inits: Seq<InitializationView>,
) -> ServerView
    decreases messages.len(),
{
    if messages.len() == 0 || inits.len() == 0 {
        s
    } else {
        let (next, action) = spec_handle(s, messages[0], inits[0]);
        if action is Exit {
            next
        } else {
            run_state(next, messages.drop_first(), inits.drop_first())
        }
    }
}

/// Nothing after `exit` is processed: whatever messages follow it, the
/// server takes the same actions and ends in the same state as when the
/// session ends with `exit`.
pub proof fn lemma_nothing_after_exit(
    s: ServerView,
    messages: Seq<JsonView>,
    exit: JsonView,
    rest: Seq<JsonView>,
    inits: Seq<InitializationView>,
)
    requires
        message_method(exit) == Method::Exit,
    ensures
        run_actions(s, messages + seq![exit] + rest, inits) == run_actions(
            s,
            messages + seq![exit],
            inits,
        ),
        run_state(s, messages + seq![exit] + rest, inits) == run_state(
            s,
            messages + seq![exit],
            inits,
        ),
    decreases messages.len(),
{
    let full = messages + seq![exit] + rest;
    let ended = messages + seq![exit];
    assert(full[0] == ended[0]);
    if messages.len() > 0 && inits.len() > 0 {
        let (next, action) = spec_handle(s, messages[0], inits[0]);
        if !(action is Exit) {
            let tail = messages.drop_first();
            assert(full.drop_first() =~= tail + seq![exit] + rest);
            assert(ended.drop_first() =~= tail + seq![exit]);
            lemma_nothing_after_exit(next, tail, exit, rest, inits.drop_first());
        }
    }
}

/// The messages among `actions` that are sent and carry an `id`, in order.
pub open spec fn sent_with_id(actions: Seq<ActionView>) -> Seq<JsonView>
    decreases actions.len(),
{
    if actions.len() == 0 {
        Seq::empty()
    } else {
        let rest = sent_with_id(actions.drop_first());
        match actions[0] {
            ActionView::Send(v) => if field(v, "id"@) is Some {
                seq![v] + rest
            } else {
                rest
            },
            _ => rest,
        }
    }
}

/// The responses that `messages` call for, in order: one for each request
/// (a message with an `id`) to `initialize`, `shutdown` or an unknown method,
/// with the request's id, and the capabilities as the result of
/// `initialize`, null otherwise.
pub open spec fn expected_responses(messages: Seq<JsonView>) -> Seq<JsonView>
    decreases messages.len(),
{
    if messages.len() == 0 {
        Seq::empty()
    } else {
        let m = messages[0];
        let rest = expected_responses(messages.drop_first());
        let method = message_method(m);
        match request_id(m) {
            Some(id) => if method == Method::Initialize {
                seq![spec_response(id, spec_initialize_result())] + rest
            } else if method == Method::Shutdown || method == Method::Unknown {
                seq![spec_response(id, JsonView::Null)] + rest
            } else {
                rest
            },
            None => rest,
        }
    }
}

proof fn lemma_literal_lengths()
    ensures
        "id"@.len() == 2,
        "jsonrpc"@.len() == 7,
        "method"@.len() == 6,
        "params"@.len() == 6,
        "result"@.len() == 6,
{
    reveal_strlit("id");
    reveal_strlit("jsonrpc");
    reveal_strlit("method");
    reveal_strlit("params");
    reveal_strlit("result");
}

/// A notification that publishes diagnostics carries no `id`.
pub proof fn lemma_publish_has_no_id(uri: Seq<char>, diagnostics: Seq<JsonView>)
    ensures
        field(spec_publish(uri, diagnostics), "id"@) is None,
{
    lemma_literal_lengths();
    let members = seq![
        ("jsonrpc"@, jstr("2.0"@)),
        ("method"@, jstr("textDocument/publishDiagnostics"@)),
        ("params"@, object(seq![("uri"@, jstr(uri)), ("diagnostics"@, JsonView::Array(diagnostics))])),
    ];
    assert(members[0].0 != "id"@);
    assert(members[1].0 != "id"@);
    assert(members[2].0 != "id"@);
    let m1 = members.drop_first();
    let m2 = m1.drop_first();
    assert(m1[0] == members[1]);
    assert(m2[0] == members[2]);
    assert(m2.drop_first() =~= Seq::<(Seq<char>, JsonView)>::empty());
    assert(find_member(Seq::<(Seq<char>, JsonView)>::empty(), "id"@) is None);
    assert(find_member(m2, "id"@) is None);
    assert(find_member(m1, "id"@) is None);
    assert(find_member(members, "id"@) is None);
}

/// A response carries the request's id.
pub proof fn lemma_response_has_id(id: JsonView, result: JsonView)
    ensures
        field(spec_response(id, result), "id"@) == Some(id),
{
    lemma_literal_lengths();
    let members = seq![("jsonrpc"@, jstr("2.0"@)), ("id"@, id), ("result"@, result)];
    assert(members[0].0 != "id"@);
    assert(members.drop_first()[0] == ("id"@, id));
    assert(find_member(members.drop_first(), "id"@) == Some(id));
    assert(find_member(members, "id"@) == Some(id));
}

/// Over a whole session without `exit`, the messages sent with an `id` are
/// exactly, in order, one response per request to `initialize`, `shutdown`
/// or an unknown method, with the request's id; other messages, and
/// notifications, get none. (The diagnostics published after an analysis
/// carry no id either: see [`lemma_publish_has_no_id`].)
pub proof fn lemma_session_responses(
    s: ServerView,
    messages: Seq<JsonView>,
    inits: Seq<InitializationView>,
)
    requires
        inits.len() == messages.len(),
        forall|i: int| 0 <= i < messages.len() ==> message_method(#[trigger] messages[i]) != Method::Exit,
    ensures
        sent_with_id(run_actions(s, messages, inits)) == expected_responses(messages),
    decreases messages.len(),
{
    if messages.len() > 0 {
        let m = messages[0];
        assert(message_method(m) != Method::Exit);
        let (next, action) = spec_handle(s, m, inits[0]);
        let rest_messages = messages.drop_first();
        assert forall|i: int| 0 <= i < rest_messages.len() implies message_method(
            #[trigger] rest_messages[i],
        ) != Method::Exit by {
            assert(rest_messages[i] == messages[i + 1]);
        }
        lemma_session_responses(next, rest_messages, inits.drop_first());
        let actions = run_actions(s, messages, inits);
        assert(!(action is Exit));
        assert(actions == seq![action] + run_actions(next, rest_messages, inits.drop_first()));
        assert(actions.drop_first() =~= run_actions(next, rest_messages, inits.drop_first()));
        assert(actions[0] == action);
        match request_id(m) {
            Some(id) => {
                lemma_response_has_id(id, spec_initialize_result());
                lemma_response_has_id(id, JsonView::Null);
            },
            None => {},
        }
        if let ActionView::Send(v) = action {
            match message_method(m) {
                Method::DidOpen | Method::DidChange | Method::DidSave => {
                    let uri = spec_document_uri(m)->Some_0;
                    lemma_publish_has_no_id(uri, seq![spec_diagnostic(0, 0, 1, not_a_file_message(), None)]);
                },
                Method::DidClose => {
                    let uri = spec_document_uri(m)->Some_0;
                    lemma_publish_has_no_id(uri, Seq::empty());
                },
                _ => {},
            }
        }
    }
}

} // verus!
