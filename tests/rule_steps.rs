use sigma2splunk::config::Sigma2Splunk;
use sigma2splunk::response::{extract_sid, parse_status, JobStatus};
use sigma2splunk::task::{
    after_conversion, after_poll, after_rule_read, after_submission, fields_of_documents,
    read_rule_fields, Action, Failure, Outcome, YamlValue,
};

fn config() -> Sigma2Splunk {
    Sigma2Splunk::new("rules", true, "https://s:8089", "u", "p", "main", "1y", "2").unwrap()
}

fn status_body(state: &str) -> Vec<u8> {
    format!(
        "<entry><content><s:dict><s:key name=\"dispatchState\">{}</s:key></s:dict></content></entry>",
        state
    )
    .into_bytes()
}

/// Runs the polling steps over scripted status answers; returns the number
/// of status requests made and the final action.
fn run_poll_script(script: &[&str]) -> (usize, Action) {
    let mut action = Action::Poll(b"42".to_vec());
    let mut polls = 0;
    for state in script {
        let sid = match action {
            Action::Poll(ref sid) => sid.clone(),
            _ => break,
        };
        polls += 1;
        action = after_poll(sid, Ok(status_body(state)));
    }
    (polls, action)
}

#[test]
fn empty_conversion_is_skipped_without_submission() {
    assert_eq!(after_conversion(Ok(String::new())), Action::Finish(Outcome::Skipped));
}

#[test]
fn converter_that_cannot_run_fails_the_rule() {
    assert_eq!(
        after_conversion(Err("sigma/sigmac: not found".to_string())),
        Action::Finish(Outcome::Failed(Failure::Converter("sigma/sigmac: not found".to_string())))
    );
}

#[test]
fn fragment_without_outer_space_is_kept() {
    assert_eq!(
        after_conversion(Ok("sourcetype=x".to_string())),
        Action::ReadRule("sourcetype=x".to_string())
    );
    assert_eq!(
        after_conversion(Ok(" x".to_string())),
        Action::ReadRule(" x".to_string())
    );
}

fn text(s: &str) -> YamlValue {
    YamlValue::Str(s.to_string())
}

#[test]
fn fields_are_read_from_the_first_document() {
    let doc = YamlValue::Mapping(vec![
        (text("status"), text("test")),
        (text("title"), text("T1")),
        (text("tags"), YamlValue::Sequence(vec![text("a"), text("b")])),
    ]);
    let other = YamlValue::Mapping(vec![(text("title"), text("T9"))]);
    let f = fields_of_documents(&vec![doc, other]);
    assert_eq!(f.title, Some("T1".to_string()));
    assert_eq!(f.tags, Some(vec!["a".to_string(), "b".to_string()]));
}

#[test]
fn fields_need_strings() {
    let doc = YamlValue::Mapping(vec![
        (text("title"), YamlValue::Integer(3)),
        (text("tags"), YamlValue::Sequence(vec![text("a"), YamlValue::Boolean(true)])),
    ]);
    let f = fields_of_documents(&vec![doc]);
    assert_eq!(f.title, None);
    assert_eq!(f.tags, None);
    let g = fields_of_documents(&vec![YamlValue::Sequence(vec![text("title")])]);
    assert_eq!(g.title, None);
    assert_eq!(g.tags, None);
    let h = fields_of_documents(&Vec::new());
    assert_eq!(h.title, None);
    let e = fields_of_documents(&vec![YamlValue::Mapping(vec![(text("tags"), YamlValue::Sequence(Vec::new()))])]);
    assert_eq!(e.tags, Some(Vec::new()));
}

#[test]
fn conversion_output_is_kept_verbatim() {
    assert_eq!(
        after_conversion(Ok("  sourcetype=x \n".to_string())),
        Action::ReadRule("  sourcetype=x \n".to_string())
    );
}

#[test]
fn missing_title_is_malformed() {
    let tags = Some(vec!["a".to_string()]);
    assert_eq!(
        after_rule_read(&config(), "sourcetype=x", None, tags),
        Action::Finish(Outcome::Failed(Failure::MalformedRule))
    );
}

#[test]
fn missing_tags_is_malformed() {
    assert_eq!(
        after_rule_read(&config(), "sourcetype=x", Some("T1".to_string()), None),
        Action::Finish(Outcome::Failed(Failure::MalformedRule))
    );
}

#[test]
fn complete_rule_is_submitted() {
    let tags = Some(vec!["a".to_string(), "b".to_string()]);
    assert_eq!(
        after_rule_read(&config(), "sourcetype=x", Some("T1".to_string()), tags),
        Action::Submit(
            "search index=main earliest=-1y sourcetype=x | eval rule_name=\"T1\", tags=\"a,b\" | collect index=alertes output_format=hec".to_string()
        )
    );
}

#[test]
fn rule_document_fields_are_read() {
    let f = read_rule_fields("title: T1\nstatus: test\ntags:\n  - a\n  - b\n");
    assert_eq!(f.title, Some("T1".to_string()));
    assert_eq!(f.tags, Some(vec!["a".to_string(), "b".to_string()]));
}

#[test]
fn rule_document_without_title_or_tags() {
    let f = read_rule_fields("description: nothing\n");
    assert_eq!(f.title, None);
    assert_eq!(f.tags, None);
    let g = read_rule_fields("title: T2\ntags:\n  - a\n  - 5\n");
    assert_eq!(g.title, Some("T2".to_string()));
    assert_eq!(g.tags, None);
    let h = read_rule_fields("title: [unclosed\n");
    assert_eq!(h.title, None);
    assert_eq!(h.tags, None);
}

#[test]
fn submission_yields_the_job_identifier() {
    let body = b"<?xml version=\"1.0\"?>\n<response>\n  <sid>1700000000.42</sid>\n</response>\n".to_vec();
    assert_eq!(after_submission(Ok(body)), Action::Poll(b"1700000000.42".to_vec()));
}

#[test]
fn submission_without_identifier_is_a_transport_error() {
    let body = b"<response><messages/></response>".to_vec();
    assert_eq!(
        after_submission(Ok(body)),
        Action::Finish(Outcome::Failed(Failure::Transport(
            "no job identifier in the response".to_string()
        )))
    );
}

#[test]
fn submission_transport_error_fails_the_rule() {
    assert_eq!(
        after_submission(Err("connection refused".to_string())),
        Action::Finish(Outcome::Failed(Failure::Transport("connection refused".to_string())))
    );
}

#[test]
fn sid_needs_both_markers() {
    assert_eq!(extract_sid(b"<sid>abc</sid>"), Some(b"abc".to_vec()));
    assert_eq!(extract_sid(b"<sid></sid>"), Some(Vec::new()));
    assert_eq!(extract_sid(b"<sid>abc"), None);
    assert_eq!(extract_sid(b"abc</sid>"), None);
    assert_eq!(extract_sid(b""), None);
}

#[test]
fn status_is_read_by_prefix() {
    assert_eq!(parse_status(&status_body("RUNNING")), JobStatus::Running);
    assert_eq!(parse_status(&status_body("FINALIZING")), JobStatus::Finalizing);
    assert_eq!(parse_status(&status_body("DONE")), JobStatus::Done);
    assert_eq!(parse_status(&status_body("FAILED")), JobStatus::Failed);
    assert_eq!(parse_status(&status_body("QUEUED")), JobStatus::Unknown);
    assert_eq!(parse_status(&status_body("done")), JobStatus::Unknown);
    assert_eq!(parse_status(b"<entry>no state here</entry>"), JobStatus::Unknown);
    assert!(JobStatus::Done.is_terminal());
    assert!(!JobStatus::Unknown.is_terminal());
}

#[test]
fn poll_loop_stops_after_three_polls_on_done() {
    let (polls, action) = run_poll_script(&["RUNNING", "RUNNING", "DONE"]);
    assert_eq!(polls, 3);
    assert_eq!(action, Action::Finish(Outcome::Succeeded(JobStatus::Done)));
}

#[test]
fn poll_loop_stops_after_one_poll_on_failed() {
    let (polls, action) = run_poll_script(&["FAILED", "DONE"]);
    assert_eq!(polls, 1);
    assert_eq!(action, Action::Finish(Outcome::Failed(Failure::JobFailed)));
}

#[test]
fn finalizing_is_a_success_and_unknown_keeps_polling() {
    let (polls, action) = run_poll_script(&["QUEUED", "FINALIZING"]);
    assert_eq!(polls, 2);
    assert_eq!(action, Action::Finish(Outcome::Succeeded(JobStatus::Finalizing)));
}

#[test]
fn poll_transport_error_fails_the_rule() {
    assert_eq!(
        after_poll(b"42".to_vec(), Err("timed out".to_string())),
        Action::Finish(Outcome::Failed(Failure::Transport("timed out".to_string())))
    );
}
