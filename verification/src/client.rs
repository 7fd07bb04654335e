//! Connecting to the Radium daemon: whether a command runs locally or
//! through the daemon, the retry schedule of a connection, and where the
//! command-line session is remembered.
use vstd::prelude::*;
use crate::paths;

verus! {

/// Where a command is executed.
#[derive(Debug, Clone, PartialEq, Eq)]
pub enum ExecutionMode {
    /// In this process.
    Local,
    /// Through the daemon at this URL.
    Daemon(String),
}

impl ExecutionMode {
    /// The execution mode chosen by the command-line arguments: local when
    /// asked for, the daemon when its URL is given, local otherwise.
    pub fn from_args(daemon: Option<String>, local: bool) -> (r: Self)
        ensures
            r == (if local {
                ExecutionMode::Local
            } else {
                match daemon {
                    Some(url) => ExecutionMode::Daemon(url),
                    None => ExecutionMode::Local,
                }
            }),
    {
        if local {
            ExecutionMode::Local
        } else if let Some(url) = daemon {
            ExecutionMode::Daemon(url)
        } else {
            ExecutionMode::Local
        }
    }
}

/// `2^n`: the wait, in seconds, before the attempt after the `n`-th failure.
pub open spec fn backoff(n: nat) -> nat
    decreases n,
{
    if n == 0 {
        1
    } else {
        2 * backoff((n - 1) as nat)
    }
}

/// What to do after a failed connection attempt.
#[derive(Debug, Clone, Copy, PartialEq, Eq)]
pub enum RetryDecision {
    /// Wait this many seconds, then try again.
    RetryAfter(u64),
    /// Stop: every attempt has failed.
    GiveUp,
}

/// The retry schedule of a daemon connection: up to `max_retries`
/// attempts, waiting 1, 2, 4, ... seconds between them.
#[derive(Debug, Clone, Copy, PartialEq, Eq)]
pub struct ConnectRetry {
    max_retries: usize,
    attempt: usize,
    delay_secs: u64,
}

impl ConnectRetry {
    /// The number of attempts allowed.
    pub closed spec fn max(self) -> nat {
        self.max_retries as nat
    }

    /// The number of attempts that have failed so far.
    pub closed spec fn failures(self) -> nat {
        self.attempt as nat
    }

    /// The wait before the next attempt.
    pub closed spec fn delay(self) -> nat {
        self.delay_secs as nat
    }

    /// The schedule is consistent: no more failures than attempts, and the
    /// wait doubled after each failure that was followed by a retry.
    pub closed spec fn wf(self) -> bool {
        &&& self.attempt <= self.max_retries
        &&& self.delay_secs == backoff(
            if self.attempt == 0 || self.attempt < self.max_retries {
                self.attempt as nat
            } else {
                (self.attempt - 1) as nat
            },
        )
    }

    /// A new schedule; three attempts unless another number is given.
    pub fn new(max_retries: Option<usize>) -> (r: Self)
        ensures
            r.wf(),
            r.max() == match max_retries {
                Some(m) => m as nat,
                None => 3nat,
            },
            r.failures() == 0,
            r.delay() == 1,
    {
        let max_retries = match max_retries {
            Some(m) => m,
            None => 3,
        };
        ConnectRetry { max_retries, attempt: 0, delay_secs: 1 }
    }

    /// Whether another attempt may be made.
    pub fn can_attempt(&self) -> (r: bool)
        ensures
            r == (self.failures() < self.max()),
    {
        self.attempt < self.max_retries
    }

    /// Whether the wait after one more failure still fits in 64 bits: it
    /// doubles on each retry, and 63 doublings are the most that fit.
    pub fn next_wait_fits(&self) -> (r: bool)
        ensures
            r == (self.failures() + 1 < self.max() ==> self.failures() < 63),
    {
        !(self.max_retries > 0 && self.attempt < self.max_retries - 1 && self.attempt >= 63)
    }

    /// Records a failed attempt and says what to do next: wait and retry
    /// while attempts remain, give up after the last one. The wait doubles
    /// after each retry.
    pub fn on_failure(&mut self) -> (r: RetryDecision)
        requires
            old(self).wf(),
            old(self).failures() < old(self).max(),
            old(self).failures() + 1 < old(self).max() ==> old(self).failures() < 63,
        ensures
            final(self).wf(),
            final(self).max() == old(self).max(),
            final(self).failures() == old(self).failures() + 1,
            old(self).delay() == backoff(old(self).failures()),
            if old(self).failures() + 1 < old(self).max() {
                &&& r == RetryDecision::RetryAfter(old(self).delay() as u64)
                &&& final(self).delay() == 2 * old(self).delay()
            } else {
                &&& r == RetryDecision::GiveUp
                &&& final(self).delay() == old(self).delay()
            },
    {
        proof {
            lemma_backoff_bound(self.attempt as nat);
        }
        let a = self.attempt;
        if a + 1 < self.max_retries {
            let d = self.delay_secs;
            self.delay_secs = d * 2;
            self.attempt = a + 1;
            RetryDecision::RetryAfter(d)
        } else {
            self.attempt = a + 1;
            RetryDecision::GiveUp
        }
    }
}

/// `2^n` is at most `2^62` for `n < 63`, so it can be doubled in a `u64`.
pub proof fn lemma_backoff_bound(n: nat)
    ensures
        n < 63 ==> backoff(n) <= 0x4000_0000_0000_0000,
        backoff(n) >= 1,
{
    lemma_backoff_pow2(n);
    vstd::arithmetic::power2::lemma_pow2_pos(n);
    if n < 62 {
        vstd::arithmetic::power2::lemma_pow2_strictly_increases(n, 62);
    }
    vstd::arithmetic::power2::lemma2_to64_rest();
}

/// The wait after `n` failures is `pow2(n)`.
pub proof fn lemma_backoff_pow2(n: nat)
    ensures
        backoff(n) == vstd::arithmetic::power2::pow2(n),
    decreases n,
{
    if n == 0 {
        vstd::arithmetic::power2::lemma2_to64();
    } else {
        lemma_backoff_pow2((n - 1) as nat);
        vstd::arithmetic::power2::lemma_pow2_unfold(n);
    }
}

/// The total wait over the first `n` retries: `1 + 2 + ... + 2^(n-1)`.
pub open spec fn total_wait(n: nat) -> nat
    decreases n,
{
    if n == 0 {
        0
    } else {
        total_wait((n - 1) as nat) + backoff((n - 1) as nat)
    }
}

/// The waits of a connection that fails every attempt add up to one second
/// less than the next wait would have been: `total_wait(n) == 2^n - 1`.
pub proof fn lemma_total_wait(n: nat)
    ensures
        total_wait(n) + 1 == backoff(n),
    decreases n,
{
    if n > 0 {
        lemma_total_wait((n - 1) as nat);
    }
}

/// The directory holding the session file: `<root>/.radium/_internals`.
pub open spec fn internals_dir_path(root: Seq<char>) -> Seq<char> {
    paths::join_path(paths::join_path(root, ".radium"@), "_internals"@)
}

/// The directory that must exist before a session can be saved.
pub fn internals_dir(workspace_root: &str) -> (r: String)
    ensures
        r@ == internals_dir_path(workspace_root@),
{
    let radium = paths::join(workspace_root, ".radium");
    paths::join(radium.as_str(), "_internals")
}

/// Where the command-line session of a workspace is remembered.
#[derive(Debug, Clone, PartialEq, Eq)]
pub struct CliSessionManager {
    session_file: String,
}

impl View for CliSessionManager {
    type V = Seq<char>;

    /// The path of the session file.
    closed spec fn view(&self) -> Seq<char> {
        self.session_file@
    }
}

impl CliSessionManager {
    /// The session manager of a workspace; its file is
    /// `<root>/.radium/_internals/cli-session`.
    pub fn new(workspace_root: &str) -> (r: Self)
        ensures
            r@ == paths::join_path(internals_dir_path(workspace_root@), "cli-session"@),
    {
        let dir = internals_dir(workspace_root);
        CliSessionManager { session_file: paths::join(dir.as_str(), "cli-session") }
    }

    /// The path of the session file.
    pub fn session_file(&self) -> (r: &str)
        ensures
            r@ == self@,
    {
        self.session_file.as_str()
    }
}

} // verus!
