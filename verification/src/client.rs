//! Client configuration: credentials and base URL with their override
//! precedence, polling and retry options, and the local pre-flight
//! checks that run before any network call.

use crate::poller::PollingOptions;
use crate::transport::ascii_lower;
use crate::transport::lower_seq;
use vstd::prelude::*;

verus! {

/// Authentication configuration for a client. Values left `None` fall
/// back to environment-provided values, then to built-in defaults.
#[derive(Clone, Debug)]
pub struct AuthOptions {
    pub api_key: Option<String>,
    pub base_url: Option<String>,
}

impl Default for AuthOptions {
    /// No explicit credential and no explicit base URL.
    fn default() -> (r: Self)
        ensures
            r.api_key is None,
            r.base_url is None,
    {
        AuthOptions { api_key: None, base_url: None }
    }
}

/// Retry configuration in its caller-facing form: the smallest backoff
/// delay in milliseconds and the number of retries.
#[derive(Clone, Copy, Debug, PartialEq, Eq, Structural)]
pub struct RetryOptions {
    pub min_timeout: u64,
    pub retries: u32,
}

impl Default for RetryOptions {
    /// One second before the first retry, six retries in all.
    fn default() -> (r: Self)
        ensures
            r.min_timeout == 1000,
            r.retries == 6,
    {
        RetryOptions { min_timeout: 1000, retries: 6 }
    }
}

/// The client of the remote proving service: the resolved credential
/// and base URL, and the polling options its job loops use. The caller
/// performs the HTTP traffic; every decision about it comes from here.
#[derive(Clone, Debug)]
pub struct SindriClient {
    pub api_key: Option<String>,
    pub base_url: String,
    pub polling_options: PollingOptions,
}

impl SindriClient {
    /// Creates a client from explicit options alone: an absent base URL
    /// falls back to the production URL, and an absent credential stays
    /// absent (such a client fails at call time, not here).
    pub fn new(auth_options: Option<AuthOptions>, polling_options: Option<PollingOptions>) -> (r:
        SindriClient)
        ensures
            ({
                let auth = match auth_options {
                    Some(a) => a,
                    None => AuthOptions { api_key: None, base_url: None },
                };
                &&& r.api_key == auth.api_key
                &&& (auth.base_url matches Some(u) ==> r.base_url == u)
                &&& (auth.base_url is None ==> r.base_url@ == "https://sindri.app"@)
            }),
            r.polling_options == match polling_options {
                Some(p) => p,
                None => PollingOptions { interval: 1000, timeout: Some(600000u64) },
            },
    {
        Self::new_with_env(auth_options, None, None, polling_options)
    }

    /// Creates a client, resolving each setting with the documented
    /// precedence: an explicit option wins over the environment's
    /// value, which wins over the built-in default. The caller reads
    /// the environment and hands its values in.
    pub fn new_with_env(
        auth_options: Option<AuthOptions>,
        env_api_key: Option<String>,
        env_base_url: Option<String>,
        polling_options: Option<PollingOptions>,
    ) -> (r: SindriClient)
        ensures
            ({
                let auth = match auth_options {
                    Some(a) => a,
                    None => AuthOptions { api_key: None, base_url: None },
                };
                &&& (auth.api_key matches Some(k) ==> r.api_key == Some(k))
                &&& (auth.api_key is None ==> r.api_key == env_api_key)
                &&& (auth.base_url matches Some(u) ==> r.base_url == u)
                &&& (auth.base_url is None ==> (env_base_url matches Some(u) ==> r.base_url == u))
                &&& (auth.base_url is None && env_base_url is None ==> r.base_url@
                    == "https://sindri.app"@)
            }),
            r.polling_options == match polling_options {
                Some(p) => p,
                None => PollingOptions { interval: 1000, timeout: Some(600000u64) },
            },
    {
        let auth = match auth_options {
            Some(a) => a,
            None => AuthOptions { api_key: None, base_url: None },
        };
        let api_key = match auth.api_key {
            Some(k) => Some(k),
            None => env_api_key,
        };
        let base_url = match auth.base_url {
            Some(u) => u,
            None => match env_base_url {
                Some(u) => u,
                None => "https://sindri.app".to_owned(),
            },
        };
        let polling = match polling_options {
            Some(p) => p,
            None => PollingOptions { interval: 1000, timeout: Some(600000u64) },
        };
        SindriClient { api_key, base_url, polling_options: polling }
    }

    /// The configured API key.
    pub fn api_key(&self) -> (r: Option<&str>)
        ensures
            r is Some <==> self.api_key is Some,
            r matches Some(s) ==> (self.api_key matches Some(k) && s@ == k@),
    {
        match &self.api_key {
            Some(k) => Some(k.as_str()),
            None => None,
        }
    }

    /// The configured base URL for requests.
    pub fn base_url(&self) -> (r: &str)
        ensures
            r@ == self.base_url@,
    {
        self.base_url.as_str()
    }

    /// Replaces the API key.
    pub fn with_api_key(self, api_key: String) -> (r: Self)
        ensures
            r.api_key == Some(api_key),
            r.base_url == self.base_url,
            r.polling_options == self.polling_options,
    {
        SindriClient { api_key: Some(api_key), ..self }
    }

    /// Replaces the base URL.
    pub fn with_base_url(self, base_url: String) -> (r: Self)
        ensures
            r.base_url == base_url,
            r.api_key == self.api_key,
            r.polling_options == self.polling_options,
    {
        SindriClient { base_url, ..self }
    }

    /// Replaces the polling interval, in milliseconds.
    pub fn with_polling_interval(self, interval: u64) -> (r: Self)
        ensures
            r.polling_options.interval == interval,
            r.polling_options.timeout == self.polling_options.timeout,
            r.api_key == self.api_key,
            r.base_url == self.base_url,
    {
        let polling = PollingOptions { interval, timeout: self.polling_options.timeout };
        SindriClient { polling_options: polling, ..self }
    }

    /// Replaces the polling timeout, in milliseconds.
    pub fn with_timeout(self, timeout: u64) -> (r: Self)
        ensures
            r.polling_options.timeout == Some(timeout),
            r.polling_options.interval == self.polling_options.interval,
            r.api_key == self.api_key,
            r.base_url == self.base_url,
    {
        let polling = PollingOptions {
            interval: self.polling_options.interval,
            timeout: Some(timeout),
        };
        SindriClient { polling_options: polling, ..self }
    }

    /// Removes the polling timeout: the poll loop then waits for a
    /// terminal status however long it takes.
    pub fn with_no_timeout(self) -> (r: Self)
        ensures
            r.polling_options.timeout is None,
            r.polling_options.interval == self.polling_options.interval,
            r.api_key == self.api_key,
            r.base_url == self.base_url,
    {
        let polling = PollingOptions { interval: self.polling_options.interval, timeout: None };
        SindriClient { polling_options: polling, ..self }
    }
}

impl Default for SindriClient {
    /// A client with no explicit options: the production base URL, no
    /// credential, default polling.
    fn default() -> (r: Self)
        ensures
            r.api_key is None,
            r.base_url@ == "https://sindri.app"@,
            r.polling_options == (PollingOptions { interval: 1000, timeout: Some(600000u64) }),
    {
        SindriClient::new(None, None)
    }
}

/// A character a circuit tag may contain: alphanumeric, underscore,
/// hyphen, or period.
pub open spec fn valid_tag_char(c: char) -> bool {
    let u = c as u32;
    (48 <= u <= 57) || (65 <= u <= 90) || (97 <= u <= 122) || u == 95 || u == 45 || u == 46
}

/// A valid circuit tag: nonempty, made of tag characters alone.
pub open spec fn valid_tag(t: Seq<char>) -> bool {
    t.len() > 0 && forall|i: int| 0 <= i < t.len() ==> valid_tag_char(#[trigger] t[i])
}

/// Whether one tag is valid.
pub fn tag_is_valid(tag: &String) -> (r: bool)
    ensures
        r == valid_tag(tag@),
{
    let s = tag.as_str();
    let n = s.unicode_len();
    if n == 0 {
        return false;
    }
    let mut i: usize = 0;
    while i < n
        invariant
            i <= n == tag@.len(),
            s@ == tag@,
            forall|j: int| 0 <= j < i ==> valid_tag_char(#[trigger] tag@[j]),
        decreases n - i,
    {
        let u = s.get_char(i) as u32;
        if !((48 <= u && u <= 57) || (65 <= u && u <= 90) || (97 <= u && u <= 122) || u == 95
            || u == 45 || u == 46) {
            return false;
        }
        i = i + 1;
    }
    true
}

/// Checks a tag list before any upload: every tag must be nonempty and
/// made of tag characters alone; the error carries the first offending
/// tag.
pub fn validate_tags(tags: &Option<Vec<String>>) -> (r: Result<(), String>)
    ensures
        r is Ok <==> (tags matches Some(ts) ==> forall|i: int|
            0 <= i < ts@.len() ==> valid_tag((#[trigger] ts@[i])@)),
        r matches Err(m) ==> (tags matches Some(ts) && exists|i: int|
            0 <= i < ts@.len() && !valid_tag((#[trigger] ts@[i])@) && m@ == "\""@ + ts@[i]@
                + "\" is not a valid tag. Tags may only contain alphanumeric characters, underscores, hyphens, and periods."@),
{
    match tags {
        None => Ok(()),
        Some(ts) => {
            let mut i: usize = 0;
            while i < ts.len()
                invariant
                    i <= ts@.len(),
                    tags matches Some(tss) && tss == *ts,
                    forall|j: int| 0 <= j < i ==> valid_tag((#[trigger] ts@[j])@),
                decreases ts@.len() - i,
            {
                if !tag_is_valid(&ts[i]) {
                    let mut m = "\"".to_owned();
                    m.append(ts[i].as_str());
                    m.append(
                        "\" is not a valid tag. Tags may only contain alphanumeric characters, underscores, hyphens, and periods.",
                    );
                    proof {
                        assert(!valid_tag((ts@[i as int])@));
                        assert(m@ == "\""@ + ts@[i as int]@
                            + "\" is not a valid tag. Tags may only contain alphanumeric characters, underscores, hyphens, and periods."@);
                    }
                    return Err(m);
                }
                i = i + 1;
            }
            Ok(())
        },
    }
}

/// Whether `s` ends with `suffix`.
pub open spec fn has_suffix(s: Seq<char>, suffix: Seq<char>) -> bool {
    s.len() >= suffix.len() && s.subrange(s.len() - suffix.len(), s.len() as int) == suffix
}

/// Whether the file name, compared case-insensitively, ends in the
/// given lower-case suffix.
fn ends_with_lower(name: &String, suffix: &str) -> (r: bool)
    ensures
        r == has_suffix(lower_seq(name@), suffix@),
{
    let s = name.as_str();
    let n = s.unicode_len();
    let m = suffix.unicode_len();
    if n < m {
        return false;
    }
    let mut j: usize = 0;
    while j < m
        invariant
            j <= m == suffix@.len(),
            n == name@.len() >= m,
            s@ == name@,
            forall|t: int| 0 <= t < j ==> lower_seq(name@)[n - m + t] == suffix@[t],
        decreases m - j,
    {
        let u = s.get_char(n - m + j) as u32;
        let lu: u32 = if 65 <= u && u <= 90 {
            u + 32
        } else {
            u
        };
        let d = suffix.get_char(j) as u32;
        if lu != d {
            proof {
                assert(lower_seq(name@)[n - m + j] == ascii_lower(name@[n - m + j]));
                assert(ascii_lower(name@[n - m + j]) as u32 == lu);
            }
            return false;
        }
        proof {
            assert(lower_seq(name@)[n - m + j] == ascii_lower(name@[n - m + j]));
            assert(ascii_lower(name@[n - m + j]) as u32 == lu);
            assert(lower_seq(name@)[n - m + j] == suffix@[j as int]);
        }
        j = j + 1;
    }
    proof {
        assert(lower_seq(name@).subrange(n - m, n as int) =~= suffix@);
    }
    true
}

/// The archive formats a project file upload accepts.
pub open spec fn is_archive_filename(name: Seq<char>) -> bool {
    ||| has_suffix(lower_seq(name), ".zip"@)
    ||| has_suffix(lower_seq(name), ".tar"@)
    ||| has_suffix(lower_seq(name), ".tar.gz"@)
    ||| has_suffix(lower_seq(name), ".tgz"@)
}

/// Whether a project file's name carries an accepted archive extension,
/// compared case-insensitively.
pub fn archive_filename_ok(name: &String) -> (r: bool)
    ensures
        r == is_archive_filename(name@),
{
    ends_with_lower(name, ".zip") || ends_with_lower(name, ".tar") || ends_with_lower(
        name,
        ".tar.gz",
    ) || ends_with_lower(name, ".tgz")
}

/// Default ceiling on the size of a cloned circuit download: two
/// gibibytes.
pub const MAX_CLONE_SIZE: u64 = 2147483648;

/// Why a clone is refused before its download starts.
#[derive(Clone, Copy, Debug, PartialEq, Eq, Structural)]
pub enum CloneError {
    /// The circuit build has not reached the ready status.
    NotReady,
    /// The stored archive is larger than the permitted download size.
    TooLarge { limit: u64 },
}

impl CloneError {
    /// A human-readable description of the refusal.
    pub fn message(&self) -> (r: &'static str)
        ensures
            self matches CloneError::NotReady ==> r@
                == "Circuit does not indicate ready status"@,
            self matches CloneError::TooLarge { .. } ==> r@
                == "Circuit tarball is larger than the permitted download size; pass a larger override to clone it"@,
    {
        match self {
            CloneError::NotReady => "Circuit does not indicate ready status",
            CloneError::TooLarge { .. } => {
                "Circuit tarball is larger than the permitted download size; pass a larger override to clone it"
            },
        }
    }
}

/// Pre-flight check before downloading a circuit's source archive: the
/// build must be ready, and its stored size must fit the permitted
/// download size, the caller's override or the default ceiling.
pub fn clone_preflight(
    status: crate::poller::JobStatus,
    file_size: Option<u64>,
    override_max_project_size: Option<u64>,
) -> (r: Result<(), CloneError>)
    ensures
        ({
            let limit = match override_max_project_size {
                Some(l) => l,
                None => MAX_CLONE_SIZE,
            };
            let size = match file_size {
                Some(s) => s,
                None => 0u64,
            };
            &&& (r matches Err(e) && e matches CloneError::NotReady <==> status
                != crate::poller::JobStatus::Ready)
            &&& (r matches Err(e) ==> (e matches CloneError::TooLarge { limit: l } ==> l
                == limit))
            &&& (r matches Err(e) && e matches CloneError::TooLarge { .. } <==> status
                == crate::poller::JobStatus::Ready && size > limit)
            &&& (r is Ok <==> status == crate::poller::JobStatus::Ready && size <= limit)
        }),
{
    let limit: u64 = match override_max_project_size {
        Some(l) => l,
        None => MAX_CLONE_SIZE,
    };
    let size: u64 = match file_size {
        Some(s) => s,
        None => 0,
    };
    if !matches!(status, crate::poller::JobStatus::Ready) {
        return Err(CloneError::NotReady);
    }
    if size > limit {
        return Err(CloneError::TooLarge { limit });
    }
    Ok(())
}

} // verus!
