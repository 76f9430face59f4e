//! The decisions taken for one rule, from its conversion to the terminal
//! state of its search job. Each step takes what the last action brought
//! back and names the next action; the caller performs it.
use vstd::prelude::*;
use vstd::string::*;
use crate::config::Sigma2Splunk;
use crate::query::{build_query, query_text};
use crate::response::{extract_sid, parse_status, sid_of, status_of, JobStatus};
use yaml_rust::{Yaml, YamlLoader};

verus! {

/// Why the work on one rule failed. Such a failure touches no other rule.
#[derive(Debug, Clone, PartialEq, Eq)]
pub enum Failure {
    /// The rule document lacks a string `title` or a list of string `tags`.
    MalformedRule,
    /// A request to the search service failed, or its answer could not be
    /// read; the detail says how.
    Transport(String),
    /// The search job ended in its failed state.
    JobFailed,
    /// The converter could not be run; the detail says why.
    Converter(String),
}

/// What became of one rule.
#[derive(Debug, Clone, PartialEq, Eq)]
pub enum Outcome {
    /// The converter gave no query for the rule; nothing was submitted.
    Skipped,
    /// The job reached a terminal state other than failure.
    Succeeded(JobStatus),
    Failed(Failure),
}

/// The next thing to do for a rule.
#[derive(Debug, Clone, PartialEq, Eq)]
pub enum Action {
    /// Read the rule document's title and tags; the converted fragment is kept.
    ReadRule(String),
    /// Submit this query text as a new search job.
    Submit(String),
    /// Wait the polling interval, then ask for the status of this job.
    Poll(Vec<u8>),
    /// The work on the rule is over.
    Finish(Outcome),
}

/// The time between two status requests, in milliseconds.
pub const POLL_INTERVAL_MS: u64 = 2000;

/// The step after the converter ran. A converter that could not be run fails
/// the rule; no output means the rule is skipped; any output is kept, as it
/// is, as the query fragment.
pub fn after_conversion(output: Result<String, String>) -> (r: Action)
    ensures
        output matches Err(e) ==> r == Action::Finish(Outcome::Failed(Failure::Converter(e))),
        (output matches Ok(s) && s@.len() == 0) ==> r == Action::Finish(Outcome::Skipped),
        (output matches Ok(s) && s@.len() > 0) ==> (r matches Action::ReadRule(f) && f@
            == output->Ok_0@),
{
    match output {
        Err(e) => Action::Finish(Outcome::Failed(Failure::Converter(e))),
        Ok(s) => {
            if s.as_str().is_empty() {
                Action::Finish(Outcome::Skipped)
            } else {
                Action::ReadRule(s)
            }
        },
    }
}

/// The step after the rule document was read: a missing title or tag list
/// fails the rule before any request; otherwise the query is submitted.
pub fn after_rule_read(
    config: &Sigma2Splunk,
    fragment: &str,
    title: Option<String>,
    tags: Option<Vec<String>>,
) -> (r: Action)
    ensures
        (title is None || tags is None) ==> r == Action::Finish(
            Outcome::Failed(Failure::MalformedRule),
        ),
        (title is Some && tags is Some) ==> (r matches Action::Submit(q) && q@ == query_text(
            config.index@,
            config.earliest@,
            fragment@,
            title->Some_0@,
            tags->Some_0.deep_view(),
        )),
{
    match (title, tags) {
        (Some(t), Some(g)) => Action::Submit(
            build_query(config.index.as_str(), config.earliest.as_str(), fragment, t.as_str(), &g),
        ),
        _ => Action::Finish(Outcome::Failed(Failure::MalformedRule)),
    }
}

/// The detail given when a job-creation response holds no job identifier.
pub const MISSING_SID_MESSAGE: &'static str = "no job identifier in the response";

/// The step after a job was submitted: a transport error, or a response
/// without a job identifier, fails the rule; otherwise the job is polled.
pub fn after_submission(response: Result<Vec<u8>, String>) -> (r: Action)
    ensures
        response matches Err(e) ==> r == Action::Finish(
            Outcome::Failed(Failure::Transport(e)),
        ),
        (response matches Ok(b) && sid_of(b@) is None) ==> (r matches Action::Finish(
            Outcome::Failed(Failure::Transport(m)),
        ) && m@ == MISSING_SID_MESSAGE@),
        (response matches Ok(b) && sid_of(b@) is Some) ==> (r matches Action::Poll(sid) && sid@
            == sid_of(response->Ok_0@)->Some_0),
{
    match response {
        Err(e) => Action::Finish(Outcome::Failed(Failure::Transport(e))),
        Ok(body) => match extract_sid(body.as_slice()) {
            Some(sid) => Action::Poll(sid),
            None => Action::Finish(
                Outcome::Failed(Failure::Transport(String::from_str(MISSING_SID_MESSAGE))),
            ),
        },
    }
}

/// The step after a status request: a transport error fails the rule, a
/// terminal state ends it, and any other state polls the same job again.
pub fn after_poll(sid: Vec<u8>, response: Result<Vec<u8>, String>) -> (r: Action)
    ensures
        response matches Err(e) ==> r == Action::Finish(
            Outcome::Failed(Failure::Transport(e)),
        ),
        response matches Ok(b) ==> r == (match status_of(b@) {
            JobStatus::Finalizing => Action::Finish(Outcome::Succeeded(JobStatus::Finalizing)),
            JobStatus::Done => Action::Finish(Outcome::Succeeded(JobStatus::Done)),
            JobStatus::Failed => Action::Finish(Outcome::Failed(Failure::JobFailed)),
            _ => Action::Poll(sid),
        }),
{
    match response {
        Err(e) => Action::Finish(Outcome::Failed(Failure::Transport(e))),
        Ok(body) => match parse_status(body.as_slice()) {
            JobStatus::Finalizing => Action::Finish(Outcome::Succeeded(JobStatus::Finalizing)),
            JobStatus::Done => Action::Finish(Outcome::Succeeded(JobStatus::Done)),
            JobStatus::Failed => Action::Finish(Outcome::Failed(Failure::JobFailed)),
            _ => Action::Poll(sid),
        },
    }
}

#[verifier::external_type_specification]
#[verifier::external_body]
pub struct ExYaml(Yaml);

/// A YAML node as plain values, one variant for each kind of node.
#[derive(Debug)]
pub enum YamlValue {
    /// A floating-point scalar, kept as written.
    Real(String),
    Integer(i64),
    Str(String),
    Boolean(bool),
    Sequence(Vec<YamlValue>),
    /// A mapping, as its (key, value) entries in document order.
    Mapping(Vec<(YamlValue, YamlValue)>),
    Alias(usize),
    Null,
    /// What a lookup of a missing key yields.
    BadValue,
}

/// The documents that `YamlLoader::load_from_str` of `yaml_rust` reads from a
/// text, or `None` where it rejects the text.
pub uninterp spec fn yaml_docs_of(content: Seq<char>) -> Option<Seq<YamlValue>>;

/// Converts a node of `yaml_rust`, and those below it, into a `YamlValue`,
/// variant for variant; the recursive part of the conversion in `load_yaml`.
#[verifier::external_body]
fn yaml_value(node: &Yaml) -> (r: YamlValue) {
    match node {
        Yaml::Real(s) => YamlValue::Real(s.clone()),
        Yaml::Integer(i) => YamlValue::Integer(*i),
        Yaml::String(s) => YamlValue::Str(s.clone()),
        Yaml::Boolean(b) => YamlValue::Boolean(*b),
        Yaml::Array(a) => YamlValue::Sequence(a.iter().map(yaml_value).collect()),
        Yaml::Hash(h) => YamlValue::Mapping(h.iter().map(|(k, v)| (yaml_value(k), yaml_value(v))).collect()),
        Yaml::Alias(n) => YamlValue::Alias(*n),
        Yaml::Null => YamlValue::Null,
        Yaml::BadValue => YamlValue::BadValue,
    }
}

/// Relies on `YamlLoader::load_from_str` of `yaml_rust`: the documents of a
/// YAML text, which depend on the text alone, or `None` where it does not scan.
#[verifier::external_body]
fn load_yaml(content: &str) -> (r: Option<Vec<YamlValue>>)
    ensures
        r matches Some(d) ==> yaml_docs_of(content@) == Some(d@),
        r is None ==> yaml_docs_of(content@) is None,
{
    YamlLoader::load_from_str(content).ok().map(|docs| docs.iter().map(yaml_value).collect())
}

/// The text of a string node.
pub open spec fn str_of(v: YamlValue) -> Option<Seq<char>> {
    match v {
        YamlValue::Str(s) => Some(s@),
        _ => None,
    }
}

/// The value of the first entry whose key is the string `key`.
pub open spec fn lookup(entries: Seq<(YamlValue, YamlValue)>, key: Seq<char>) -> Option<YamlValue>
    decreases entries.len(),
{
    if entries.len() == 0 {
        None
    } else if str_of(entries[0].0) == Some(key) {
        Some(entries[0].1)
    } else {
        lookup(entries.drop_first(), key)
    }
}

/// The value under `key` in a mapping node.
pub open spec fn field_of(doc: YamlValue, key: Seq<char>) -> Option<YamlValue> {
    match doc {
        YamlValue::Mapping(e) => lookup(e@, key),
        _ => None,
    }
}

/// The rule's title: the string under `title`.
pub open spec fn title_of(doc: YamlValue) -> Option<Seq<char>> {
    match field_of(doc, "title"@) {
        Some(v) => str_of(v),
        None => None,
    }
}

pub open spec fn all_strings(items: Seq<YamlValue>) -> bool {
    forall|i: int| 0 <= i < items.len() ==> (#[trigger] str_of(items[i])) is Some
}

/// The rule's tags: the list under `tags`, when every item of it is a string.
pub open spec fn tags_of(doc: YamlValue) -> Option<Seq<Seq<char>>> {
    match field_of(doc, "tags"@) {
        Some(YamlValue::Sequence(items)) => if all_strings(items@) {
            Some(items@.map_values(|v: YamlValue| str_of(v)->Some_0))
        } else {
            None
        },
        _ => None,
    }
}

/// The value under `key` in a mapping node.
pub fn field<'a>(doc: &'a YamlValue, key: &String) -> (r: Option<&'a YamlValue>)
    ensures
        r matches Some(v) ==> field_of(*doc, key@) == Some(*v),
        r is None ==> field_of(*doc, key@) is None,
{
    let entries = match doc {
        YamlValue::Mapping(e) => e,
        _ => return None,
    };
    let mut i: usize = 0;
    assert(entries@.subrange(0, entries@.len() as int) =~= entries@);
    while i < entries.len()
        invariant
            0 <= i <= entries.len(),
            field_of(*doc, key@) == lookup(entries@.subrange(i as int, entries@.len() as int), key@),
        decreases entries.len() - i,
    {
        let ghost rest = entries@.subrange(i as int, entries@.len() as int);
        assert(rest.drop_first() =~= entries@.subrange(i + 1, entries@.len() as int));
        assert(rest[0] == entries@[i as int]);
        if let YamlValue::Str(k) = &entries[i].0 {
            if k.eq(key) {
                return Some(&entries[i].1);
            }
        }
        i = i + 1;
    }
    None
}

/// The two fields of a rule document that the run reads.
#[derive(Debug)]
pub struct RuleFields {
    pub title: Option<String>,
    /// Present only when every item of the `tags` list is a string.
    pub tags: Option<Vec<String>>,
}

/// The first document, if there is one.
pub open spec fn first_document(docs: Option<Seq<YamlValue>>) -> Option<YamlValue> {
    match docs {
        Some(d) => if d.len() > 0 {
            Some(d[0])
        } else {
            None
        },
        None => None,
    }
}

/// The title of the first document, if any.
pub open spec fn document_title(docs: Option<Seq<YamlValue>>) -> Option<Seq<char>> {
    match first_document(docs) {
        Some(doc) => title_of(doc),
        None => None,
    }
}

/// The tags of the first document, if any.
pub open spec fn document_tags(docs: Option<Seq<YamlValue>>) -> Option<Seq<Seq<char>>> {
    match first_document(docs) {
        Some(doc) => tags_of(doc),
        None => None,
    }
}

/// Reads the title and the tags, in their order, from the first of the
/// documents of a rule file.
pub fn fields_of_documents(docs: &Vec<YamlValue>) -> (r: RuleFields)
    ensures
        r.title is Some <==> document_title(Some(docs@)) is Some,
        r.title matches Some(t) ==> document_title(Some(docs@)) == Some(t@),
        r.tags is Some <==> document_tags(Some(docs@)) is Some,
        r.tags matches Some(g) ==> document_tags(Some(docs@)) == Some(g.deep_view()),
{
    if docs.len() == 0 {
        return RuleFields { title: None, tags: None };
    }
    let doc = &docs[0];
    let title = match field(doc, &String::from_str("title")) {
        Some(YamlValue::Str(s)) => Some(s.clone()),
        _ => None,
    };
    let items = match field(doc, &String::from_str("tags")) {
        Some(YamlValue::Sequence(v)) => v,
        _ => return RuleFields { title, tags: None },
    };
    let ghost want = items@.map_values(|v: YamlValue| str_of(v)->Some_0);
    let ghost expected = if all_strings(items@) {
        Some(want)
    } else {
        None
    };
    assert(document_tags(Some(docs@)) == expected);
    let mut tags: Vec<String> = Vec::new();
    let mut i: usize = 0;
    while i < items.len()
        invariant
            0 <= i <= items.len(),
            title is Some <==> document_title(Some(docs@)) is Some,
            title matches Some(t) ==> document_title(Some(docs@)) == Some(t@),
            document_tags(Some(docs@)) == expected,
            expected == (if all_strings(items@) {
                Some(want)
            } else {
                None
            }),
            want == items@.map_values(|v: YamlValue| str_of(v)->Some_0),
            forall|k: int| 0 <= k < i ==> (#[trigger] str_of(items@[k])) is Some,
            tags.deep_view() =~= want.subrange(0, i as int),
        decreases items.len() - i,
    {
        match &items[i] {
            YamlValue::Str(s) => {
                let ghost before = tags.deep_view();
                tags.push(s.clone());
                assert(str_of(items@[i as int]) is Some);
                assert(want[i as int] == s@);
                assert(tags.deep_view() =~= before.push(s@));
            },
            _ => {
                assert(str_of(items@[i as int]) is None);
                return RuleFields { title, tags: None };
            },
        }
        i = i + 1;
    }
    assert(want.subrange(0, items.len() as int) =~= want);
    RuleFields { title, tags: Some(tags) }
}

/// Reads the title and the tags, in their order, from the first document of a
/// rule file. A text that does not scan has neither.
pub fn read_rule_fields(content: &str) -> (r: RuleFields)
    ensures
        r.title is Some <==> document_title(yaml_docs_of(content@)) is Some,
        r.title matches Some(t) ==> document_title(yaml_docs_of(content@)) == Some(t@),
        r.tags is Some <==> document_tags(yaml_docs_of(content@)) is Some,
        r.tags matches Some(g) ==> document_tags(yaml_docs_of(content@)) == Some(g.deep_view()),
{
    match load_yaml(content) {
        Some(docs) => fields_of_documents(&docs),
        None => RuleFields { title: None, tags: None },
    }
}

} // verus!
