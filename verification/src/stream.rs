//! Rules of the HTTP stream fetcher: how received chunks enter the shared
//! ring buffer, how the `icy-metaint` header is read, how long to wait
//! before reconnecting, and which URL to reconnect to.

use std::collections::VecDeque;
use vstd::prelude::*;

use crate::icy::{icy_run, icy_run_audio_len, icy_start, opt_chars, utf8_lossy, stream_title, IcyStripper};
use crate::text::{chars_of, parse_unsigned, parse_unsigned_spec};

verus! {

broadcast use vstd::std_specs::vecdeque::group_vec_dequeue_axioms;

/// Capacity of the byte ring buffer between fetcher and decoder.
pub const RING_BUFFER_CAPACITY: usize = 524288;

/// First reconnect delay after an error, in milliseconds.
pub const RETRY_BACKOFF_BASE_MS: u64 = 500;

/// Longest reconnect delay, in milliseconds.
pub const RETRY_BACKOFF_MAX_MS: u64 = 10000;

/// Bytes a connection must deliver before its final (redirected) URL is
/// trusted as the reconnect target.
pub const EFFECTIVE_URL_TRUST_BYTES: usize = 65536;

/// `2^n`.
pub open spec fn two_pow(n: nat) -> nat
    decreases n,
{
    if n == 0 {
        1
    } else {
        2 * two_pow((n - 1) as nat)
    }
}

/// The reconnect delay after the error of attempt number `attempt`
/// (counted from zero): 500 ms doubled per attempt, doubling at most five
/// times, and never more than 10 s.
pub open spec fn backoff_spec(attempt: nat) -> nat {
    let e: nat = if attempt < 5 {
        attempt
    } else {
        5
    };
    let d = 500 * two_pow(e);
    if d < 10000 {
        d
    } else {
        10000
    }
}

/// The reconnect delay, in milliseconds, after the error of attempt
/// `attempt`.
pub fn backoff_ms(attempt: u32) -> (ms: u64)
    ensures
        ms == backoff_spec(attempt as nat),
{
    let e: u32 = if attempt < 5 {
        attempt
    } else {
        5
    };
    let mut d: u64 = RETRY_BACKOFF_BASE_MS;
    let mut k: u32 = 0;
    while k < e
        invariant
            k <= e <= 5,
            d == 500 * two_pow(k as nat),
        decreases e - k,
    {
        proof {
            assert(two_pow((k + 1) as nat) == 2 * two_pow(k as nat));
            assert(two_pow(k as nat) <= 16) by {
                reveal_with_fuel(two_pow, 6);
            }
        }
        d = d * 2;
        k += 1;
    }
    if d < RETRY_BACKOFF_MAX_MS {
        d
    } else {
        RETRY_BACKOFF_MAX_MS
    }
}

/// The reconnect delay lies between 500 ms and 10 s and never shrinks as
/// the attempts grow.
pub proof fn backoff_bounded_monotone(a: nat, b: nat)
    requires
        a <= b,
    ensures
        500 <= backoff_spec(a) <= 10000,
        backoff_spec(a) <= backoff_spec(b),
{
    assert(two_pow(0) == 1 && two_pow(1) == 2 && two_pow(2) == 4 && two_pow(3) == 8 && two_pow(4)
        == 16 && two_pow(5) == 32) by {
        reveal_with_fuel(two_pow, 6);
    }
}

/// The ICY metadata interval announced by an `icy-metaint` header value: a
/// positive decimal `usize`; absent otherwise.
pub open spec fn metaint_spec(header: Seq<char>) -> Option<nat> {
    match parse_unsigned_spec(header, usize::MAX as nat) {
        Some(n) if n > 0 => Some(n),
        _ => None,
    }
}

/// Reads the `icy-metaint` header value.
pub fn parse_metaint(header: &str) -> (r: Option<usize>)
    ensures
        r matches Some(n) ==> metaint_spec(header@) == Some(n as nat),
        r is None ==> metaint_spec(header@) is None,
{
    match parse_unsigned(header, usize::MAX as u64) {
        Some(n) => {
            if n > 0 {
                Some(n as usize)
            } else {
                None
            }
        },
        None => None,
    }
}

/// The ring buffer after a chunk of `chunk_len` received bytes whose audio
/// is `clean`: the oldest bytes are dropped so that the buffer and the whole
/// received chunk fit in the capacity, then the audio is appended.
pub open spec fn ring_after(buf: Seq<u8>, chunk_len: nat, clean: Seq<u8>) -> Seq<u8> {
    let over = buf.len() + chunk_len - RING_BUFFER_CAPACITY;
    let drop = if over > 0 {
        over
    } else {
        0
    };
    buf.subrange(drop, buf.len() as int) + clean
}

/// The per-connection state of the fetcher.
pub struct FetchSession {
    stripper: Option<IcyStripper>,
    bytes_received: usize,
}

impl FetchSession {
    /// Total bytes received on this connection.
    pub closed spec fn received(&self) -> nat {
        self.bytes_received as nat
    }

    /// The ICY stripper, present when the server announced a metadata interval.
    pub closed spec fn icy(&self) -> Option<IcyStripper> {
        self.stripper
    }

    pub closed spec fn wf(&self) -> bool {
        self.stripper matches Some(s) ==> s.wf()
    }

    /// A fresh connection; `metaint` is the announced metadata interval.
    pub fn new(metaint: Option<usize>) -> (s: Self)
        ensures
            s.wf(),
            s.received() == 0,
            metaint is None ==> s.icy() is None,
            metaint matches Some(m) ==> s.icy() matches Some(st) && st.interval() == m
                && st.phase() == icy_start(m as nat) && st.pending_meta() == Seq::<u8>::empty(),
    {
        let stripper = match metaint {
            Some(m) => Some(IcyStripper::new(m)),
            None => None,
        };
        FetchSession { stripper, bytes_received: 0 }
    }

    /// Total bytes received on this connection.
    pub fn bytes_received(&self) -> (n: usize)
        ensures
            n == self.received(),
    {
        self.bytes_received
    }

    /// Takes one received chunk into the ring buffer: counts it, drops the
    /// oldest buffered bytes to make room for it, strips ICY metadata when
    /// present and appends the audio.  Returns the stream title found in the
    /// metadata collected so far, if any.
    pub fn ingest(&mut self, buf: &mut VecDeque<u8>, chunk: &[u8]) -> (title: Option<String>)
        requires
            old(self).wf(),
            chunk.len() <= RING_BUFFER_CAPACITY,
            old(self).received() + chunk.len() <= usize::MAX,
        ensures
            final(self).wf(),
            final(self).received() == old(self).received() + chunk.len(),
            old(buf)@.len() <= RING_BUFFER_CAPACITY ==> final(buf)@.len() <= RING_BUFFER_CAPACITY,
            match old(self).icy() {
                None => {
                    &&& final(self).icy() is None
                    &&& final(buf)@ == ring_after(old(buf)@, chunk.len() as nat, chunk@)
                    &&& title is None
                },
                Some(st) => {
                    let r = icy_run(st.phase(), st.interval(), chunk@);
                    let meta = st.pending_meta() + r.meta;
                    &&& final(self).icy() matches Some(st2) && st2.interval() == st.interval()
                        && st2.phase() == r.phase && st2.pending_meta() == Seq::<u8>::empty()
                    &&& final(buf)@ == ring_after(old(buf)@, chunk.len() as nat, r.audio)
                    &&& meta.len() == 0 ==> title is None
                    &&& meta.len() > 0 ==> opt_chars(title) == stream_title(utf8_lossy(meta))
                },
            },
    {
        self.bytes_received = self.bytes_received + chunk.len();
        let ghost b0 = buf@;
        while buf.len() > RING_BUFFER_CAPACITY - chunk.len()
            invariant
                chunk.len() <= RING_BUFFER_CAPACITY,
                b0.len() >= buf@.len(),
                buf@ == b0.subrange(b0.len() - buf@.len(), b0.len() as int),
                b0.len() + chunk.len() > RING_BUFFER_CAPACITY ==> buf@.len() + chunk.len()
                    >= RING_BUFFER_CAPACITY,
                b0.len() + chunk.len() <= RING_BUFFER_CAPACITY ==> buf@ == b0,
            decreases buf@.len(),
        {
            let _ = buf.pop_front();
        }
        let ghost kept = buf@;
        proof {
            let over = b0.len() + chunk.len() - RING_BUFFER_CAPACITY;
            if over > 0 {
                assert(kept.len() == RING_BUFFER_CAPACITY - chunk.len());
                assert(b0.len() - kept.len() == over);
            } else {
                assert(b0.subrange(0, b0.len() as int) =~= b0);
            }
        }
        let mut title: Option<String> = None;
        let mut clean: Vec<u8> = Vec::new();
        let mut stripper = self.stripper.take();
        match stripper {
            Some(ref mut s) => {
                s.process(chunk, &mut clean);
                title = s.take_title();
                proof {
                    icy_run_audio_len(old(self).icy().unwrap().phase(), old(self).icy().unwrap().interval(), chunk@);
                }
            },
            None => {
                let mut i: usize = 0;
                while i < chunk.len()
                    invariant
                        i <= chunk.len(),
                        clean@ == chunk@.subrange(0, i as int),
                    decreases chunk.len() - i,
                {
                    clean.push(chunk[i]);
                    i += 1;
                    assert(clean@ =~= chunk@.subrange(0, i as int));
                }
                assert(clean@ =~= chunk@);
            },
        }
        self.stripper = stripper;
        let mut j: usize = 0;
        while j < clean.len()
            invariant
                j <= clean.len(),
                buf@ == kept + clean@.subrange(0, j as int),
            decreases clean.len() - j,
        {
            buf.push_back(clean[j]);
            j += 1;
            assert(buf@ =~= kept + clean@.subrange(0, j as int));
        }
        assert(clean@.subrange(0, clean@.len() as int) =~= clean@);
        title
    }
}

/// Moves up to `max` bytes from the front of the ring buffer into a new
/// vector (the read side of the decoder's byte source).
pub fn take_front(buf: &mut VecDeque<u8>, max: usize) -> (out: Vec<u8>)
    ensures
        out@.len() == if old(buf)@.len() < max { old(buf)@.len() } else { max as nat },
        out@ == old(buf)@.subrange(0, out@.len() as int),
        final(buf)@ == old(buf)@.subrange(out@.len() as int, old(buf)@.len() as int),
{
    let ghost b0 = buf@;
    let mut out: Vec<u8> = Vec::new();
    while out.len() < max && buf.len() > 0
        invariant
            out@.len() <= max,
            out@.len() + buf@.len() == b0.len(),
            out@ == b0.subrange(0, out@.len() as int),
            buf@ == b0.subrange(out@.len() as int, b0.len() as int),
        decreases buf@.len(),
    {
        match buf.pop_front() {
            Some(b) => {
                out.push(b);
                assert(out@ =~= b0.subrange(0, out@.len() as int));
                assert(buf@ =~= b0.subrange(out@.len() as int, b0.len() as int));
            },
            None => {},
        }
    }
    out
}

/// What a connection attempt ended with.
pub enum FetchOutcome {
    /// The body ended cleanly.
    Finished { final_url: Option<String>, bytes_received: usize },
    /// The request or the body failed.
    Failed { final_url: Option<String>, bytes_received: usize },
}

/// What the fetcher does next.
#[derive(PartialEq, Eq, Structural, Debug, Clone, Copy)]
pub enum FetchAction {
    /// Reconnect at once, keeping the buffered bytes.
    Reconnect,
    /// Clear the buffer, wait `delay_ms`, then reconnect.
    RetryAfter { delay_ms: u64 },
}

/// The reconnect state of one stream: where it started, where reconnects
/// go, and how many errors followed each other.
pub struct ReconnectPolicy {
    original_url: String,
    effective_url: String,
    attempt: u32,
}

impl ReconnectPolicy {
    pub closed spec fn original(&self) -> Seq<char> {
        self.original_url@
    }

    pub closed spec fn effective(&self) -> Seq<char> {
        self.effective_url@
    }

    pub closed spec fn attempts(&self) -> nat {
        self.attempt as nat
    }

    /// The policy for a stream at `url`: reconnects go to `url`, no errors yet.
    pub fn new(url: String) -> (p: Self)
        ensures
            p.original() == url@,
            p.effective() == url@,
            p.attempts() == 0,
    {
        let effective_url = url.clone();
        ReconnectPolicy { original_url: url, effective_url, attempt: 0 }
    }

    /// The URL to connect to next.
    pub fn effective_url(&self) -> (u: &String)
        ensures
            u@ == self.effective(),
    {
        &self.effective_url
    }

    /// Number of errors since the last clean end of a connection.
    pub fn attempt(&self) -> (n: u32)
        ensures
            n == self.attempts(),
    {
        self.attempt
    }

    /// Decides what follows a connection: a clean end reconnects at once; an
    /// error waits the backoff delay.  A redirected final URL becomes the
    /// reconnect target only after 64 KiB arrived from it; an error before
    /// that returns to the original URL.
    pub fn on_outcome(&mut self, outcome: FetchOutcome) -> (action: FetchAction)
        requires
            outcome is Failed ==> old(self).attempts() < u32::MAX,
        ensures
            final(self).original() == old(self).original(),
            match outcome {
                FetchOutcome::Finished { final_url, bytes_received } => {
                    &&& action == FetchAction::Reconnect
                    &&& final(self).attempts() == 0
                    &&& final(self).effective() == (match final_url {
                        Some(u) if bytes_received >= EFFECTIVE_URL_TRUST_BYTES => u@,
                        _ => old(self).effective(),
                    })
                },
                FetchOutcome::Failed { final_url, bytes_received } => {
                    &&& action == (FetchAction::RetryAfter {
                        delay_ms: backoff_spec(old(self).attempts()) as u64,
                    })
                    &&& final(self).attempts() == old(self).attempts() + 1
                    &&& final(self).effective() == (if bytes_received >= EFFECTIVE_URL_TRUST_BYTES {
                        match final_url {
                            Some(u) => u@,
                            None => old(self).effective(),
                        }
                    } else {
                        old(self).original()
                    })
                },
            },
    {
        match outcome {
            FetchOutcome::Finished { final_url, bytes_received } => {
                if let Some(u) = final_url {
                    if bytes_received >= EFFECTIVE_URL_TRUST_BYTES {
                        self.effective_url = u;
                    }
                }
                self.attempt = 0;
                FetchAction::Reconnect
            },
            FetchOutcome::Failed { final_url, bytes_received } => {
                if bytes_received >= EFFECTIVE_URL_TRUST_BYTES {
                    if let Some(u) = final_url {
                        self.effective_url = u;
                    }
                } else {
                    self.effective_url = self.original_url.clone();
                }
                let delay_ms = backoff_ms(self.attempt);
                self.attempt = self.attempt + 1;
                FetchAction::RetryAfter { delay_ms }
            },
        }
    }
}

} // verus!
