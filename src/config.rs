//! Run configuration and the validation of its command-line values.
use vstd::prelude::*;
use vstd::string::*;

verus! {

/// Returned when the rules path given to the run does not exist.
#[derive(Debug)]
pub struct InvalidFile {
    pub file: String,
}

impl InvalidFile {
    pub fn new(file: &str) -> (r: InvalidFile)
        ensures
            r.file@ == file@,
    {
        InvalidFile { file: String::from_str(file) }
    }

    /// The message that reports the missing path.
    pub fn message(&self) -> (r: String)
        ensures
            r@ == self.file@ + " does not exists !"@,
    {
        let mut r = self.file.clone();
        r.append(" does not exists !");
        r
    }

    /// The path that was not found.
    pub fn description(&self) -> (r: &str)
        ensures
            r@ == self.file@,
    {
        self.file.as_str()
    }
}

pub open spec fn is_digit(c: char) -> bool {
    '0' <= c && c <= '9'
}

pub open spec fn digit_value(c: char) -> int {
    (c as u32) as int - ('0' as u32) as int
}

/// The number written by a sequence of decimal digits, most significant first.
pub open spec fn decimal_value(s: Seq<char>) -> int
    decreases s.len(),
{
    if s.len() == 0 {
        0
    } else {
        decimal_value(s.drop_last()) * 10 + digit_value(s.last())
    }
}

/// The digits of an unsigned number, after an optional leading `+`.
pub open spec fn unsigned_digits(s: Seq<char>) -> Seq<char> {
    if s.len() > 0 && s[0] == '+' {
        s.drop_first()
    } else {
        s
    }
}

/// `s` is the decimal form of a `usize`.
pub open spec fn is_usize_text(s: Seq<char>) -> bool {
    let d = unsigned_digits(s);
    &&& d.len() > 0
    &&& forall|i: int| 0 <= i < d.len() ==> is_digit(#[trigger] d[i])
    &&& decimal_value(d) <= usize::MAX
}

proof fn lemma_decimal_value_nonneg(s: Seq<char>)
    requires
        forall|i: int| 0 <= i < s.len() ==> is_digit(#[trigger] s[i]),
    ensures
        decimal_value(s) >= 0,
    decreases s.len(),
{
    if s.len() > 0 {
        lemma_decimal_value_nonneg(s.drop_last());
    }
}

proof fn lemma_decimal_prefix_le(s: Seq<char>, k: int)
    requires
        0 <= k <= s.len(),
        forall|i: int| 0 <= i < s.len() ==> is_digit(#[trigger] s[i]),
    ensures
        decimal_value(s.subrange(0, k)) <= decimal_value(s),
    decreases s.len(),
{
    if k < s.len() {
        let t = s.drop_last();
        assert(t.subrange(0, k) =~= s.subrange(0, k));
        lemma_decimal_prefix_le(t, k);
        lemma_decimal_value_nonneg(t);
    } else {
        assert(s.subrange(0, k) =~= s);
    }
}

/// Reads a `usize` written in decimal, with an optional leading `+`.
pub fn parse_uint(value: &str) -> (r: Option<usize>)
    ensures
        r is Some <==> is_usize_text(value@),
        r is Some ==> r.unwrap() as int == decimal_value(unsigned_digits(value@)),
{
    let n = value.unicode_len();
    let mut start: usize = 0;
    if n > 0 && value.get_char(0) == '+' {
        start = 1;
    }
    let ghost d = unsigned_digits(value@);
    assert(d =~= value@.subrange(start as int, n as int));
    if start == n {
        return None;
    }
    let mut v: usize = 0;
    let mut i: usize = start;
    while i < n
        invariant
            start <= i <= n,
            n == value@.len(),
            d =~= value@.subrange(start as int, n as int),
            d == unsigned_digits(value@),
            forall|k: int| 0 <= k < i - start ==> is_digit(#[trigger] d[k]),
            v as int == decimal_value(d.subrange(0, i - start)),
        decreases n - i,
    {
        let c = value.get_char(i);
        assert(c == d[i - start]);
        if !('0' <= c && c <= '9') {
            assert(!is_digit(d[i - start]));
            assert(!is_usize_text(value@));
            return None;
        }
        let dv: u32 = (c as u32) - ('0' as u32);
        let ghost prefix = d.subrange(0, i - start + 1);
        assert(prefix.drop_last() =~= d.subrange(0, i - start));
        assert(decimal_value(prefix) == v as int * 10 + dv as int);
        if v > (usize::MAX - dv as usize) / 10 {
            proof {
                assert(v as int * 10 + dv as int > usize::MAX) by (nonlinear_arith)
                    requires
                        v as int > (usize::MAX - dv as int) / 10,
                        0 <= dv <= 9,
                ;
                if forall|k: int| 0 <= k < d.len() ==> is_digit(#[trigger] d[k]) {
                    lemma_decimal_prefix_le(d, i - start + 1);
                    assert(decimal_value(d) > usize::MAX);
                }
                assert(!is_usize_text(value@));
            }
            return None;
        }
        proof {
            assert(v as int * 10 + dv as int <= usize::MAX) by (nonlinear_arith)
                requires
                    v as int <= (usize::MAX - dv as int) / 10,
                    0 <= dv <= 9,
            ;
        }
        v = v * 10 + dv as usize;
        i = i + 1;
    }
    assert(d.subrange(0, n - start) =~= d);
    Some(v)
}

/// The message given for a worker count that is not a positive integer.
pub const WORKER_COUNT_MESSAGE: &'static str = "Expected value to be a positive number.";

/// `s` is the decimal form of a worker count: a `usize` of at least one.
pub open spec fn is_worker_count_text(s: Seq<char>) -> bool {
    is_usize_text(s) && decimal_value(unsigned_digits(s)) >= 1
}

/// Validates a worker count given on the command line.
pub fn is_uint(value: &str) -> (r: Result<(), String>)
    ensures
        r is Ok <==> is_worker_count_text(value@),
        r is Err ==> r->Err_0@ == WORKER_COUNT_MESSAGE@,
{
    match parse_uint(value) {
        Some(n) if n >= 1 => Ok(()),
        _ => Err(String::from_str(WORKER_COUNT_MESSAGE)),
    }
}

/// A startup error: nothing is dispatched after one.
#[derive(Debug)]
pub enum StartupError {
    /// The rules path does not exist.
    NotFound(InvalidFile),
    /// A configuration value is invalid; the message says which.
    Config(String),
}

/// What `Credentials::as_http_header` of `http_auth_basic` gives for a user
/// name and a password.
pub uninterp spec fn basic_auth_of(user: Seq<char>, password: Seq<char>) -> Seq<char>;

/// Relies on `http_auth_basic::Credentials::new` and `as_http_header`: the
/// `Authorization` header value for the two strings, which depends on them
/// alone and begins with `Basic `.
#[verifier::external_body]
fn basic_auth_header(user: &str, password: &str) -> (r: String)
    ensures
        r@ == basic_auth_of(user@, password@),
        r@.len() >= 6 && r@.subrange(0, 6) == "Basic "@,
{
    http_auth_basic::Credentials::new(user, password).as_http_header()
}

/// The configuration of one run. It does not change once the run starts, and
/// every worker reads the same one.
#[derive(Debug)]
pub struct Sigma2Splunk {
    pub threads: usize,
    pub username: String,
    pub password: String,
    pub index: String,
    pub earliest: String,
    pub splunk: String,
    pub rules: String,
}

impl Sigma2Splunk {
    /// Builds the configuration from the command-line values. `rules_exists`
    /// tells whether the rules path exists now. The path is checked first,
    /// then the worker count.
    pub fn new(
        rules: &str,
        rules_exists: bool,
        splunk: &str,
        username: &str,
        password: &str,
        index: &str,
        earliest: &str,
        threads: &str,
    ) -> (r: Result<Sigma2Splunk, StartupError>)
        ensures
            !rules_exists ==> (r matches Err(StartupError::NotFound(e)) && e.file@ == rules@),
            rules_exists && !is_worker_count_text(threads@) ==> (r matches Err(
                StartupError::Config(m),
            ) && m@ == WORKER_COUNT_MESSAGE@),
            rules_exists && is_worker_count_text(threads@) ==> (r matches Ok(c) && {
                &&& c.threads as int == decimal_value(unsigned_digits(threads@))
                &&& c.rules@ == rules@
                &&& c.splunk@ == splunk@
                &&& c.username@ == username@
                &&& c.password@ == password@
                &&& c.index@ == index@
                &&& c.earliest@ == earliest@
            }),
    {
        if !rules_exists {
            return Err(StartupError::NotFound(InvalidFile::new(rules)));
        }
        match parse_uint(threads) {
            Some(n) if n >= 1 => Ok(Sigma2Splunk {
                threads: n,
                username: String::from_str(username),
                password: String::from_str(password),
                index: String::from_str(index),
                earliest: String::from_str(earliest),
                splunk: String::from_str(splunk),
                rules: String::from_str(rules),
            }),
            _ => Err(StartupError::Config(String::from_str(WORKER_COUNT_MESSAGE))),
        }
    }

    /// The `Authorization` header sent with every request of the run.
    pub fn authorization(&self) -> (r: String)
        ensures
            r@ == basic_auth_of(self.username@, self.password@),
            r@.len() >= 6 && r@.subrange(0, 6) == "Basic "@,
    {
        basic_auth_header(self.username.as_str(), self.password.as_str())
    }
}

} // verus!
