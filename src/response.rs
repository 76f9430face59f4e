//! Reading the two fields the search service returns: the identifier of a new
//! job, and the dispatch state of a running one. Both are read from the raw
//! response body.
use vstd::prelude::*;

verus! {

/// `pat` stands in `s` at position `i`.
pub open spec fn occurs_at(s: Seq<u8>, pat: Seq<u8>, i: int) -> bool {
    0 <= i && i + pat.len() <= s.len() && s.subrange(i, i + pat.len()) == pat
}

/// `i` is the first position at or after `from` where `pat` stands in `s`.
pub open spec fn is_first_from(s: Seq<u8>, pat: Seq<u8>, from: int, i: int) -> bool {
    &&& from <= i
    &&& occurs_at(s, pat, i)
    &&& forall|j: int| from <= j < i ==> !#[trigger] occurs_at(s, pat, j)
}

/// The first position at or after `from` where `pat` stands in `s`, if any.
pub open spec fn first_from(s: Seq<u8>, pat: Seq<u8>, from: int) -> Option<int> {
    if exists|i: int| is_first_from(s, pat, from, i) {
        Some(choose|i: int| is_first_from(s, pat, from, i))
    } else {
        None
    }
}

proof fn lemma_first_unique(s: Seq<u8>, pat: Seq<u8>, from: int, i: int)
    requires
        is_first_from(s, pat, from, i),
    ensures
        first_from(s, pat, from) == Some(i),
{
    let k = choose|k: int| is_first_from(s, pat, from, k);
    assert(is_first_from(s, pat, from, k));
    if k < i {
        assert(!occurs_at(s, pat, k));
    } else if i < k {
        assert(!occurs_at(s, pat, i));
    }
}

/// Tells whether `pat` stands in `s` at position `at`.
pub fn occurs_in_at(s: &[u8], pat: &[u8], at: usize) -> (r: bool)
    ensures
        r == occurs_at(s@, pat@, at as int),
{
    if pat.len() > s.len() || at > s.len() - pat.len() {
        return false;
    }
    let mut k: usize = 0;
    while k < pat.len()
        invariant
            at + pat.len() <= s.len(),
            0 <= k <= pat.len(),
            forall|m: int| 0 <= m < k ==> s@[at + m] == pat@[m],
        decreases pat.len() - k,
    {
        if s[at + k] != pat[k] {
            assert(s@.subrange(at as int, at + pat.len())[k as int] != pat@[k as int]);
            return false;
        }
        k = k + 1;
    }
    assert(s@.subrange(at as int, at + pat.len()) =~= pat@);
    true
}

/// The first position at or after `from` where `pat` stands in `s`.
pub fn find_from(s: &[u8], pat: &[u8], from: usize) -> (r: Option<usize>)
    ensures
        r matches Some(i) ==> first_from(s@, pat@, from as int) == Some(i as int),
        r is None ==> first_from(s@, pat@, from as int) is None,
{
    let mut i: usize = from;
    while i < s.len()
        invariant
            from <= i,
            forall|j: int| from <= j < i ==> !#[trigger] occurs_at(s@, pat@, j),
        decreases s.len() - i,
    {
        if occurs_in_at(s, pat, i) {
            proof {
                lemma_first_unique(s@, pat@, from as int, i as int);
            }
            return Some(i);
        }
        i = i + 1;
    }
    if occurs_in_at(s, pat, i) {
        proof {
            lemma_first_unique(s@, pat@, from as int, i as int);
        }
        return Some(i);
    }
    proof {
        assert forall|k: int| !is_first_from(s@, pat@, from as int, k) by {
            if from <= k && k > i {
                assert(!occurs_at(s@, pat@, k));
            }
        };
    }
    None
}

pub open spec fn sid_open() -> Seq<u8> {
    seq![60u8, 115u8, 105u8, 100u8, 62u8]
}

pub open spec fn sid_close() -> Seq<u8> {
    seq![60u8, 47u8, 115u8, 105u8, 100u8, 62u8]
}

/// The job identifier in a job-creation response: the text between the first
/// `<sid>` and the first `</sid>` after it. Absent when either marker is.
pub open spec fn sid_of(body: Seq<u8>) -> Option<Seq<u8>> {
    match first_from(body, sid_open(), 0) {
        None => None,
        Some(i) => match first_from(body, sid_close(), i + sid_open().len()) {
            None => None,
            Some(e) => Some(body.subrange(i + sid_open().len(), e)),
        },
    }
}

/// Reads the job identifier out of a job-creation response body.
pub fn extract_sid(body: &[u8]) -> (r: Option<Vec<u8>>)
    ensures
        r matches Some(v) ==> sid_of(body@) == Some(v@),
        r is None ==> sid_of(body@) is None,
{
    let open = vec![60u8, 115u8, 105u8, 100u8, 62u8];
    let close = vec![60u8, 47u8, 115u8, 105u8, 100u8, 62u8];
    assert(open@ =~= sid_open());
    assert(close@ =~= sid_close());
    let i = match find_from(body, open.as_slice(), 0) {
        Some(i) => i,
        None => return None,
    };
    assert(occurs_at(body@, sid_open(), i as int));
    let n = body.len();
    assert(i + 5 <= n);
    let start = i + 5;
    let e = match find_from(body, close.as_slice(), start) {
        Some(e) => e,
        None => return None,
    };
    assert(occurs_at(body@, sid_close(), e as int));
    let mut v: Vec<u8> = Vec::new();
    let mut k: usize = start;
    while k < e
        invariant
            start <= k <= e,
            e <= body.len(),
            v@ =~= body@.subrange(start as int, k as int),
        decreases e - k,
    {
        v.push(body[k]);
        k = k + 1;
    }
    Some(v)
}

/// The state of a search job as the service reports it.
#[derive(Debug, Clone, Copy, PartialEq, Eq, Structural)]
pub enum JobStatus {
    Running,
    Finalizing,
    Done,
    Failed,
    /// No known state could be read; taken as still running.
    Unknown,
}

impl JobStatus {
    /// No further change follows this state.
    pub open spec fn is_terminal_spec(self) -> bool {
        self is Finalizing || self is Done || self is Failed
    }

    pub fn is_terminal(&self) -> (r: bool)
        ensures
            r == self.is_terminal_spec(),
    {
        match self {
            JobStatus::Finalizing | JobStatus::Done | JobStatus::Failed => true,
            _ => false,
        }
    }
}

pub open spec fn state_marker() -> Seq<u8> {
    seq![
        100u8, 105u8, 115u8, 112u8, 97u8, 116u8, 99u8, 104u8, 83u8, 116u8, 97u8, 116u8, 101u8, 34u8, 62u8,
    ]
}

pub open spec fn running_text() -> Seq<u8> {
    seq![82u8, 85u8, 78u8, 78u8, 73u8, 78u8, 71u8]
}

pub open spec fn finalizing_text() -> Seq<u8> {
    seq![70u8, 73u8, 78u8, 65u8, 76u8, 73u8, 90u8, 73u8, 78u8, 71u8]
}

pub open spec fn done_text() -> Seq<u8> {
    seq![68u8, 79u8, 78u8, 69u8]
}

pub open spec fn failed_text() -> Seq<u8> {
    seq![70u8, 65u8, 73u8, 76u8, 69u8, 68u8]
}

/// The status that a state value starting at `at` in `s` stands for, by a
/// case-sensitive prefix match.
pub open spec fn status_at(s: Seq<u8>, at: int) -> JobStatus {
    if occurs_at(s, running_text(), at) {
        JobStatus::Running
    } else if occurs_at(s, finalizing_text(), at) {
        JobStatus::Finalizing
    } else if occurs_at(s, done_text(), at) {
        JobStatus::Done
    } else if occurs_at(s, failed_text(), at) {
        JobStatus::Failed
    } else {
        JobStatus::Unknown
    }
}

/// The status in a job-status response: the value that follows the first
/// `dispatchState">`, or `Unknown` where that field is missing.
pub open spec fn status_of(body: Seq<u8>) -> JobStatus {
    match first_from(body, state_marker(), 0) {
        None => JobStatus::Unknown,
        Some(i) => status_at(body, i + state_marker().len()),
    }
}

/// Reads the job status out of a job-status response body.
pub fn parse_status(body: &[u8]) -> (r: JobStatus)
    ensures
        r == status_of(body@),
{
    let marker = vec![
        100u8, 105u8, 115u8, 112u8, 97u8, 116u8, 99u8, 104u8, 83u8, 116u8, 97u8, 116u8, 101u8, 34u8, 62u8,
    ];
    assert(marker@ =~= state_marker());
    let i = match find_from(body, marker.as_slice(), 0) {
        Some(i) => i,
        None => return JobStatus::Unknown,
    };
    assert(occurs_at(body@, state_marker(), i as int));
    let n = body.len();
    assert(i + 15 <= n);
    let at = i + 15;
    let running = vec![82u8, 85u8, 78u8, 78u8, 73u8, 78u8, 71u8];
    let finalizing = vec![70u8, 73u8, 78u8, 65u8, 76u8, 73u8, 90u8, 73u8, 78u8, 71u8];
    let done = vec![68u8, 79u8, 78u8, 69u8];
    let failed = vec![70u8, 65u8, 73u8, 76u8, 69u8, 68u8];
    assert(running@ =~= running_text());
    assert(finalizing@ =~= finalizing_text());
    assert(done@ =~= done_text());
    assert(failed@ =~= failed_text());
    if occurs_in_at(body, running.as_slice(), at) {
        JobStatus::Running
    } else if occurs_in_at(body, finalizing.as_slice(), at) {
        JobStatus::Finalizing
    } else if occurs_in_at(body, done.as_slice(), at) {
        JobStatus::Done
    } else if occurs_in_at(body, failed.as_slice(), at) {
        JobStatus::Failed
    } else {
        JobStatus::Unknown
    }
}

} // verus!
