//! Side-by-side views of a record across tiers: the record's payload
//! rendered as text, and a line diff between what the current context sees
//! and what Head holds. The line diff itself comes from the `diff` crate;
//! everything around it — rendering, prefixing, assembly — is verified.

use vstd::prelude::*;
use vstd::string::StringExecFns;
use crate::record::{Payload, PayloadData};
use crate::store::{Error, Store};

verus! {

/// What a code view holds.
#[derive(Clone, Copy, Debug, PartialEq, Eq, Structural)]
pub enum CodeLanguage {
    Json,
    Diff,
}

/// A rendered view of a record, or of a difference between two records.
#[derive(Debug, PartialEq, Eq)]
pub struct CodeView {
    pub language: CodeLanguage,
    pub code: Option<String>,
}

impl CodeView {
    /// A code view of the given language and text.
    pub fn new(language: CodeLanguage, code: Option<String>) -> (r: CodeView)
        ensures
            r.language == language,
            r.code == code,
    {
        CodeView { language, code }
    }
}

/// One line of a computed difference: present only on the old side, on
/// both sides, or only on the new side.
#[derive(Debug, PartialEq, Eq)]
pub enum DiffLine {
    Removed(String),
    Unchanged(String),
    Added(String),
}

/// A diff line as the specification sees it: a side tag and the line text.
pub open spec fn diff_line_view(d: DiffLine) -> (int, Seq<char>) {
    match d {
        DiffLine::Removed(s) => (0int, s@),
        DiffLine::Unchanged(s) => (1int, s@),
        DiffLine::Added(s) => (2int, s@),
    }
}

/// The views of a sequence of diff lines.
pub open spec fn diff_views(ls: Seq<DiffLine>) -> Seq<(int, Seq<char>)> {
    Seq::new(ls.len(), |j: int| diff_line_view(ls[j]))
}

/// What `diff::lines` computes for two texts: a function of the two texts
/// alone.
pub uninterp spec fn line_diff(prev: Seq<char>, curr: Seq<char>) -> Seq<(int, Seq<char>)>;

/// Relies on diff::lines: the line-by-line difference of the two texts,
/// which depends on the two texts alone.
#[verifier::external_body]
fn diff_lines(prev: &str, curr: &str) -> (r: Vec<DiffLine>)
    ensures
        diff_views(r@) == line_diff(prev@, curr@),
{
    diff::lines(prev, curr)
        .into_iter()
        .map(
            |d|
                match d {
                    diff::Result::Left(l) => DiffLine::Removed(l.to_string()),
                    diff::Result::Both(u, _) => DiffLine::Unchanged(u.to_string()),
                    diff::Result::Right(r) => DiffLine::Added(r.to_string()),
                },
        )
        .collect()
}

/// One rendered diff line: its side marker followed by its text.
pub open spec fn spec_render_entry(v: (int, Seq<char>)) -> Seq<char> {
    if v.0 == 0 {
        "-"@ + v.1
    } else if v.0 == 1 {
        " "@ + v.1
    } else {
        "+"@ + v.1
    }
}

/// Rendered diff lines, joined by newlines.
pub open spec fn spec_render(vs: Seq<(int, Seq<char>)>) -> Seq<char>
    decreases vs.len(),
{
    if vs.len() == 0 {
        Seq::<char>::empty()
    } else if vs.len() == 1 {
        spec_render_entry(vs[0])
    } else {
        spec_render(vs.drop_last()) + "\n"@ + spec_render_entry(vs.last())
    }
}

/// Rendering one more line appends a newline and that line.
proof fn lemma_spec_render_push(vs: Seq<(int, Seq<char>)>, v: (int, Seq<char>))
    ensures
        vs.len() == 0 ==> spec_render(vs.push(v)) == spec_render_entry(v),
        vs.len() > 0 ==> spec_render(vs.push(v)) == spec_render(vs) + "\n"@ + spec_render_entry(
            v,
        ),
{
    assert(vs.push(v).drop_last() =~= vs);
    assert(vs.push(v).last() == v);
    if vs.len() == 0 {
        assert(vs.push(v)[0] == v);
    }
}

/// Render computed diff lines as text: `-` marks a removed line, a space
/// an unchanged one, `+` an added one, with lines joined by newlines.
pub fn render_diff(lines: &Vec<DiffLine>) -> (out: String)
    ensures
        out@ == spec_render(diff_views(lines@)),
{
    let mut out = String::new();
    let mut i: usize = 0;
    while i < lines.len()
        invariant
            i <= lines@.len(),
            out@ == spec_render(diff_views(lines@.take(i as int))),
        decreases lines@.len() - i,
    {
        if i > 0 {
            out.append("\n");
        }
        match &lines[i] {
            DiffLine::Removed(s) => {
                out.append("-");
                out.append(s.as_str());
            },
            DiffLine::Unchanged(s) => {
                out.append(" ");
                out.append(s.as_str());
            },
            DiffLine::Added(s) => {
                out.append("+");
                out.append(s.as_str());
            },
        }
        proof {
            assert(diff_views(lines@.take(i as int + 1)) =~= diff_views(
                lines@.take(i as int),
            ).push(diff_line_view(lines@[i as int])));
            lemma_spec_render_push(
                diff_views(lines@.take(i as int)),
                diff_line_view(lines@[i as int]),
            );
        }
        i = i + 1;
    }
    proof {
        assert(lines@.take(lines@.len() as int) =~= lines@);
    }
    out
}

/// The tag naming a payload's kind.
pub open spec fn spec_kind_tag(d: PayloadData) -> Seq<char> {
    match d {
        PayloadData::Application => "application"@,
        PayloadData::System => "system"@,
        PayloadData::Service => "service"@,
        PayloadData::Extension { kind, document } => kind@,
    }
}

/// A payload rendered as text: its name, its kind tag, and for extension
/// payloads the stored document.
pub open spec fn spec_payload_text(p: Payload) -> Seq<char> {
    let base = "name: "@ + p.name@ + "\n"@ + "kind: "@ + spec_kind_tag(p.data);
    match p.data {
        PayloadData::Extension { kind, document } => base + "\n"@ + document@,
        _ => base,
    }
}

/// Render a payload as text.
pub fn payload_text(p: &Payload) -> (out: String)
    ensures
        out@ == spec_payload_text(*p),
{
    let mut out = String::new();
    out.append("name: ");
    out.append(p.name.as_str());
    out.append("\n");
    out.append("kind: ");
    match &p.data {
        PayloadData::Application => {
            out.append("application");
        },
        PayloadData::System => {
            out.append("system");
        },
        PayloadData::Service => {
            out.append("service");
        },
        PayloadData::Extension { kind, document } => {
            out.append(kind.as_str());
            out.append("\n");
            out.append(document.as_str());
        },
    }
    out
}

/// The difference between what a tier context sees for an object and what
/// Head holds for it.
#[derive(Debug, PartialEq, Eq)]
pub struct ComponentDiff {
    /// The object's payload as the given context sees it.
    pub current: CodeView,
    /// The line diffs against Head; empty when the object is new and Head
    /// has no row for it yet.
    pub diffs: Vec<CodeView>,
}

impl ComponentDiff {
    /// Compute the diff of an object between the given draft context and
    /// Head. The context must actually be a draft context: diffing Head
    /// against itself is refused.
    pub fn new(
        store: &Store,
        object_id: &String,
        change_set_id: Option<u64>,
        edit_session_id: Option<u64>,
    ) -> (r: Result<ComponentDiff, Error>)
        requires
            store.wf(),
        ensures
            match r {
                Result::Ok(d) => {
                    &&& (change_set_id is Some || edit_session_id is Some)
                    &&& (store.spec_resolve(object_id@, change_set_id, edit_session_id)
                        matches Option::Some(cur) && {
                        &&& d.current.language == CodeLanguage::Json
                        &&& (d.current.code matches Option::Some(t) && t@ == spec_payload_text(
                            cur.payload,
                        ))
                        &&& match store.spec_resolve(object_id@, Option::None, Option::None) {
                            Option::Some(prev) => d.diffs@.len() == 1
                                && d.diffs@[0].language == CodeLanguage::Diff && (d.diffs@[0].code
                                matches Option::Some(dt) && dt@ == spec_render(
                                line_diff(
                                    spec_payload_text(prev.payload),
                                    spec_payload_text(cur.payload),
                                ),
                            )),
                            Option::None => d.diffs@.len() == 0,
                        }
                    })
                },
                Result::Err(e) => (e == Error::InvalidState && change_set_id is None
                    && edit_session_id is None) || (e == Error::NotFound && (change_set_id is Some
                    || edit_session_id is Some) && store.spec_resolve(
                    object_id@,
                    change_set_id,
                    edit_session_id,
                ) is None),
            },
    {
        if change_set_id.is_none() && edit_session_id.is_none() {
            return Result::Err(Error::InvalidState);
        }
        let current = match store.resolve(object_id, change_set_id, edit_session_id) {
            Result::Ok(rec) => rec,
            Result::Err(e) => {
                return Result::Err(e);
            },
        };
        let curr_text = payload_text(&current.payload);
        match store.resolve(object_id, Option::None, Option::None) {
            Result::Ok(prev) => {
                let prev_text = payload_text(&prev.payload);
                let lines = diff_lines(prev_text.as_str(), curr_text.as_str());
                let rendered = render_diff(&lines);
                let mut diffs: Vec<CodeView> = Vec::new();
                diffs.push(CodeView::new(CodeLanguage::Diff, Option::Some(rendered)));
                Result::Ok(
                    ComponentDiff {
                        current: CodeView::new(CodeLanguage::Json, Option::Some(curr_text)),
                        diffs,
                    },
                )
            },
            Result::Err(_) => Result::Ok(
                ComponentDiff {
                    current: CodeView::new(CodeLanguage::Json, Option::Some(curr_text)),
                    diffs: Vec::new(),
                },
            ),
        }
    }
}

} // verus!
