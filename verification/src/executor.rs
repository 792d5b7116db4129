use vstd::prelude::*;
use crate::chat::StreamEvent;
use crate::clock::epoch_millis;
use crate::key_manager::{
    KeyManager, KeyState, after_rate_limit, error_step, success_step, update_named, rotation_outcome,
};
use crate::providers::{ProviderKind, provider_name};
use crate::text::{
    chars_of, contains, find_chars, first_word, first_word_of, find_seq, has_seq, lowercase,
    parse_u64, parse_u64_spec, slice_chars, to_lowercase,
};

verus! {

/// The decisions around provider calls: which key a call uses, how a failure is
/// classified, what the key pool learns from each outcome, and when a request
/// moves on to another key.
pub struct ProviderExecutor;

/// Whether a lowercased error text speaks of a rate limit.
pub open spec fn mentions_rate_limit(lowered: Seq<char>) -> bool {
    ||| has_seq(lowered, "429"@)
    ||| has_seq(lowered, "rate limit"@)
    ||| has_seq(lowered, "rate_limit"@)
    ||| has_seq(lowered, "too many requests"@)
    ||| has_seq(lowered, "temporarily rate-limited"@)
}

/// Whether an error text reports a rate limit.
pub open spec fn is_rate_limited(message: Seq<char>) -> bool {
    mentions_rate_limit(lowercase(message))
}

/// Whether a lowercased error text speaks of a rate limit.
pub fn mentions_rate_limit_text(lowered: &str) -> (r: bool)
    ensures
        r == mentions_rate_limit(lowered@),
{
    contains(lowered, "429") || contains(lowered, "rate limit") || contains(lowered, "rate_limit")
        || contains(lowered, "too many requests") || contains(lowered, "temporarily rate-limited")
}

/// Whether an error text reports a rate limit.
pub fn is_rate_limit(message: &str) -> (r: bool)
    ensures
        r == is_rate_limited(message@),
{
    let lowered = to_lowercase(message);
    mentions_rate_limit_text(lowered.as_str())
}

/// The marker before the reset time that OpenRouter embeds in its errors.
pub open spec fn reset_marker() -> Seq<char> {
    "\"X-RateLimit-Reset\":\""@
}

/// The epoch milliseconds after OpenRouter's reset marker, up to the next quote.
pub open spec fn reset_epoch_ms(message: Seq<char>) -> Option<u64> {
    match find_seq(message, reset_marker()) {
        Some(p) => {
            let tail = message.skip(p + reset_marker().len());
            match find_seq(tail, seq!['"']) {
                Some(e) => parse_u64_spec(tail.take(e)),
                None => None,
            }
        },
        None => None,
    }
}

/// The seconds given by a `retry_after=NN` hint: the first word after the
/// first occurrence of `retry_after=`, when it is a number.
pub open spec fn generic_hint(message: Seq<char>) -> Option<u64> {
    match find_seq(message, "retry_after="@) {
        Some(p) => match first_word(message.skip(p + 12)) {
            Some(w) => parse_u64_spec(w),
            None => None,
        },
        None => None,
    }
}

/// Seconds until `ms`, rounded up, and at least one.
pub open spec fn seconds_until(ms: u64, now: u64) -> u64 {
    let secs = ((ms - now) + 999) / 1000;
    if secs < 1 { 1 } else { secs as u64 }
}

/// The retry hint of an error text at clock reading `now` (epoch milliseconds,
/// `None` while the clock reads before the epoch): a `retry_after=NN` hint, else
/// the time left until OpenRouter's reset, else none.
pub open spec fn retry_hint(message: Seq<char>, now: Option<u64>) -> Option<u64> {
    match generic_hint(message) {
        Some(secs) => Some(secs),
        None => match reset_epoch_ms(message) {
            Some(ms) => match now {
                Some(t) => if ms > t { Some(seconds_until(ms, t)) } else { None },
                None => None,
            },
            None => None,
        },
    }
}

/// The reset time, in epoch milliseconds, that OpenRouter embeds in a rate-limit
/// error as `"X-RateLimit-Reset":"NNN"`.
pub fn parse_openrouter_reset_epoch_ms(message: &str) -> (r: Option<u64>)
    ensures
        r == reset_epoch_ms(message@),
{
    let text = chars_of(message);
    let marker = chars_of("\"X-RateLimit-Reset\":\"");
    match find_chars(&text, &marker) {
        Some(p) => {
            proof {
                crate::text::lemma_has_seq(text@, marker@);
            }
            assert(crate::text::occurs_at(text@, marker@, p as int));
            let start = p + marker.len();
            let tail = slice_chars(&text, start, text.len());
            assert(tail@ =~= message@.skip(start as int));
            let mut quote: Vec<char> = Vec::new();
            quote.push('"');
            assert(quote@ =~= seq!['"']);
            match find_chars(&tail, &quote) {
                Some(e) => {
                    proof {
                        crate::text::lemma_has_seq(tail@, quote@);
                    }
                    let digits = slice_chars(&tail, 0, e);
                    assert(digits@ =~= tail@.take(e as int));
                    parse_u64(&digits)
                },
                None => None,
            }
        },
        None => None,
    }
}

/// The `retry_after=NN` hint of an error text.
pub fn parse_generic_hint(message: &str) -> (r: Option<u64>)
    ensures
        r == generic_hint(message@),
{
    let text = chars_of(message);
    let marker = chars_of("retry_after=");
    proof {
        reveal_strlit("retry_after=");
    }
    match find_chars(&text, &marker) {
        Some(p) => {
            proof {
                crate::text::lemma_has_seq(text@, marker@);
            }
            assert(crate::text::occurs_at(text@, marker@, p as int));
            let rest = slice_chars(&text, p + 12, text.len());
            assert(rest@ =~= message@.skip(p + 12));
            match first_word_of(&rest) {
                Some(w) => parse_u64(&w),
                None => None,
            }
        },
        None => None,
    }
}

/// The retry hint of an error text at clock reading `now`.
pub fn retry_hint_at(message: &str, now: Option<u64>) -> (r: Option<u64>)
    ensures
        r == retry_hint(message@, now),
{
    match parse_generic_hint(message) {
        Some(secs) => Some(secs),
        None => match parse_openrouter_reset_epoch_ms(message) {
            Some(ms) => match now {
                Some(t) => {
                    if ms > t {
                        let secs = ((ms - t) / 1000) + if (ms - t) % 1000 == 0 { 0 } else { 1 };
                        assert(secs == ((ms - t) + 999) / 1000) by (nonlinear_arith)
                            requires
                                ms > t,
                                secs == ((ms - t) / 1000) + if (ms - t) % 1000 == 0 { 0int } else { 1int },
                        ;
                        Some(if secs < 1 { 1 } else { secs })
                    } else {
                        None
                    }
                },
                None => None,
            },
            None => None,
        },
    }
}

/// The retry hint of an error text at the current time of the system clock.
pub fn parse_retry_after(message: &str) -> (r: Option<u64>)
    ensures
        exists|now: Option<u64>| r == #[trigger] retry_hint(message@, now),
{
    match parse_generic_hint(message) {
        Some(secs) => {
            assert(Some(secs) == retry_hint(message@, None));
            Some(secs)
        },
        None => match parse_openrouter_reset_epoch_ms(message) {
            Some(_) => {
                let now = epoch_millis();
                retry_hint_at(message, now)
            },
            None => {
                assert(retry_hint(message@, None) is None);
                None
            },
        },
    }
}

/// The text with which a request fails when no key is left but only because
/// every key is resting after rate limits.
pub open spec fn all_limited_text() -> Seq<char> {
    "All API keys are currently rate limited. Please retry shortly."@
}

/// The text with which a request fails when the provider needs a key and the
/// pool has none to give.
pub open spec fn no_keys_text(provider: Seq<char>) -> Seq<char> {
    "No API keys available for '"@ + provider + "'. Add one with: nimbox add -n default <key>"@
}

/// What a provider call tells the pool about the key it used.
#[derive(PartialEq, Eq, Structural, Debug, Clone, Copy)]
pub enum KeyReport {
    Success,
    RateLimited(Option<u64>),
    Failure,
}

/// The pool after `report` on the key called `name`, with a rate limit starting at `now`.
pub open spec fn reported(keys: Seq<KeyState>, name: Seq<char>, report: KeyReport, now: u64) -> Seq<KeyState> {
    match report {
        KeyReport::Success => update_named(keys, name, success_step()),
        KeyReport::RateLimited(hint) => after_rate_limit(keys, name, hint, now),
        KeyReport::Failure => update_named(keys, name, error_step()),
    }
}

/// What a streamed event tells the pool: the end of the stream is a success, an
/// error event a failure, a rate limit when its text says so.
pub open spec fn stream_report_of(event: crate::chat::StreamEventV) -> Option<KeyReport> {
    match event {
        crate::chat::StreamEventV::Done => Some(KeyReport::Success),
        crate::chat::StreamEventV::Error { message } => {
            let limited = has_seq(lowercase(message), "rate limit"@) || has_seq(message, "429"@)
                || has_seq(lowercase(message), "temporarily rate-limited"@);
            Some(if limited { KeyReport::RateLimited(None) } else { KeyReport::Failure })
        },
        _ => None,
    }
}

/// What a streamed event tells the pool.
pub fn stream_report(event: &StreamEvent) -> (r: Option<KeyReport>)
    ensures
        r == stream_report_of(event@),
{
    match event {
        StreamEvent::Done => Some(KeyReport::Success),
        StreamEvent::Error { message } => {
            let lowered = to_lowercase(message.as_str());
            let limited = contains(lowered.as_str(), "rate limit") || contains(message.as_str(), "429")
                || contains(lowered.as_str(), "temporarily rate-limited");
            Some(if limited { KeyReport::RateLimited(None) } else { KeyReport::Failure })
        },
        _ => None,
    }
}

/// Tells the pool what a call with the key `key_name` came to.
pub fn apply_report(km: &mut KeyManager, key_name: &str, report: KeyReport)
    ensures
        exists|now: u64| final(km).pool() == #[trigger] reported(old(km).pool(), key_name@, report, now),
        final(km).cursor() == old(km).cursor(),
{
    match report {
        KeyReport::Success => {
            km.report_success(key_name);
            assert(final(km).pool() == reported(old(km).pool(), key_name@, report, 0));
        },
        KeyReport::RateLimited(hint) => {
            km.report_rate_limit_with_retry(key_name, hint);
            proof {
                let now = choose|now: u64| km.pool() == after_rate_limit(old(km).pool(), key_name@, hint, now);
                assert(km.pool() == reported(old(km).pool(), key_name@, report, now));
            }
        },
        KeyReport::Failure => {
            km.report_error(key_name);
            assert(final(km).pool() == reported(old(km).pool(), key_name@, report, 0));
        },
    }
}

/// The report on a failed call: a rate limit with the error's retry hint, or
/// a plain failure.
pub fn failure_report(message: &str) -> (r: KeyReport)
    ensures
        is_rate_limited(message@) ==> exists|now: Option<u64>| r == KeyReport::RateLimited(#[trigger] retry_hint(message@, now)),
        !is_rate_limited(message@) ==> r == KeyReport::Failure,
{
    if is_rate_limit(message) {
        KeyReport::RateLimited(parse_retry_after(message))
    } else {
        KeyReport::Failure
    }
}

impl ProviderExecutor {
    /// The key for the next call to `provider`: a placeholder for providers
    /// that need none, else the pool's next usable key.
    pub fn acquire_key(provider: ProviderKind, km: &mut KeyManager) -> (r: Result<(String, String), String>)
        ensures
            provider == ProviderKind::Ollama ==> {
                &&& r matches Ok(p) && p.0@ == "local"@ && p.1@ == Seq::<char>::empty()
                &&& final(km).pool() == old(km).pool() && final(km).cursor() == old(km).cursor()
            },
            provider != ProviderKind::Ollama ==> {
                &&& final(km).pool() == old(km).pool()
                &&& exists|now: u64| #[trigger] rotation_outcome(old(km).pool(), old(km).cursor(), now)
                    == (match r { Ok(p) => Some(p), Err(_) => None }, final(km).cursor())
                &&& r matches Err(e) ==> e@ == no_keys_text(provider_name(provider))
            },
    {
        if !provider.requires_api_key() {
            return Ok((String::from_str("local"), String::new()));
        }
        match km.next_key() {
            Some(k) => Ok(k),
            None => {
                let mut message = String::from_str("No API keys available for '");
                message.append(provider.name());
                message.append("'. Add one with: nimbox add -n default <key>");
                Err(message)
            },
        }
    }
}

/// The state of a request that moves on to the next key after a rate limit.
pub struct RetryState {
    saw_rate_limit: bool,
    attempt: u32,
    tried_keys: Vec<String>,
}

impl RetryState {
    /// Whether some attempt of the request hit a rate limit.
    pub closed spec fn limited(&self) -> bool {
        self.saw_rate_limit
    }

    /// The number of the attempt under way.
    pub closed spec fn attempts(&self) -> u32 {
        self.attempt
    }

    /// The names of the keys tried, in order.
    pub closed spec fn tried(&self) -> Seq<Seq<char>> {
        self.tried_keys@.map_values(|s: String| s@)
    }

    pub fn new() -> (s: Self)
        ensures
            !s.limited(),
            s.attempts() == 0,
            s.tried() == Seq::<Seq<char>>::empty(),
    {
        let s = RetryState { saw_rate_limit: false, attempt: 0, tried_keys: Vec::new() };
        assert(s.tried() =~= Seq::<Seq<char>>::empty());
        s
    }

    /// Starts the next attempt; the counter wraps around at `u32::MAX`.
    pub fn start_attempt(&mut self)
        ensures
            final(self).attempts() == (if old(self).attempts() == u32::MAX { 0 } else { (old(self).attempts() + 1) as u32 }),
            final(self).limited() == old(self).limited(),
            final(self).tried() == old(self).tried(),
    {
        self.attempt = if self.attempt == u32::MAX { 0 } else { self.attempt + 1 };
    }

    /// The number of the attempt under way.
    pub fn attempt(&self) -> (n: u32)
        ensures
            n == self.attempts(),
    {
        self.attempt
    }

    /// Whether some attempt of the request hit a rate limit.
    pub fn saw_rate_limit(&self) -> (r: bool)
        ensures
            r == self.limited(),
    {
        self.saw_rate_limit
    }

    /// The names of the keys tried.
    pub fn tried_keys(&self) -> (r: &Vec<String>)
        ensures
            r@.map_values(|s: String| s@) == self.tried(),
    {
        &self.tried_keys
    }

    /// Records the key picked for the attempt under way.
    pub fn key_chosen(&mut self, key_name: String)
        ensures
            final(self).tried() == old(self).tried().push(key_name@),
            final(self).limited() == old(self).limited(),
            final(self).attempts() == old(self).attempts(),
    {
        let ghost before = self.tried_keys@;
        self.tried_keys.push(key_name);
        assert(self.tried_keys@.map_values(|s: String| s@) =~= before.map_values(|s: String| s@).push(key_name@));
    }

    /// The error of a request for which no key could be had: after a rate limit
    /// every key is resting, else the pool's own error stands.
    pub fn no_key(&self, acquire_error: String) -> (r: String)
        ensures
            self.limited() ==> r@ == all_limited_text(),
            !self.limited() ==> r == acquire_error,
    {
        if self.saw_rate_limit {
            String::from_str("All API keys are currently rate limited. Please retry shortly.")
        } else {
            acquire_error
        }
    }

    /// Settles an attempt made with `key_name`: the pool learns the outcome, and
    /// the result says whether the request moves on to another key, which it
    /// does after a rate limit and only then.
    pub fn settle(&mut self, km: &mut KeyManager, key_name: &str, failure: Option<&str>) -> (retry: bool)
        ensures
            final(km).cursor() == old(km).cursor(),
            final(self).attempts() == old(self).attempts(),
            final(self).tried() == old(self).tried(),
            match failure {
                None => {
                    &&& !retry
                    &&& final(self).limited() == old(self).limited()
                    &&& final(km).pool() == reported(old(km).pool(), key_name@, KeyReport::Success, 0)
                },
                Some(m) => if is_rate_limited(m@) {
                    &&& retry
                    &&& final(self).limited()
                    &&& exists|hint_now: Option<u64>, now: u64| final(km).pool()
                        == #[trigger] reported(old(km).pool(), key_name@, KeyReport::RateLimited(retry_hint(m@, hint_now)), now)
                } else {
                    &&& !retry
                    &&& final(self).limited() == old(self).limited()
                    &&& final(km).pool() == reported(old(km).pool(), key_name@, KeyReport::Failure, 0)
                },
            },
    {
        match failure {
            None => {
                km.report_success(key_name);
                false
            },
            Some(message) => {
                if is_rate_limit(message) {
                    self.saw_rate_limit = true;
                    let hint = parse_retry_after(message);
                    km.report_rate_limit_with_retry(key_name, hint);
                    proof {
                        let hint_now = choose|hint_now: Option<u64>| hint == retry_hint(message@, hint_now);
                        let now = choose|now: u64| km.pool() == after_rate_limit(old(km).pool(), key_name@, hint, now);
                        assert(km.pool() == reported(old(km).pool(), key_name@,
                            KeyReport::RateLimited(retry_hint(message@, hint_now)), now));
                    }
                    true
                } else {
                    km.report_error(key_name);
                    false
                }
            },
        }
    }
}

/// A `retry_after=NN` hint wins over OpenRouter's reset time and does not
/// depend on the clock.
pub proof fn law_generic_hint_wins(message: Seq<char>, now: Option<u64>)
    requires
        generic_hint(message) is Some,
    ensures
        retry_hint(message, now) == generic_hint(message),
{
}

/// A reset time in the future gives a wait of at least one second, rounded up
/// to whole seconds.
pub proof fn law_reset_wait(message: Seq<char>, now: u64)
    requires
        generic_hint(message) is None,
        reset_epoch_ms(message) matches Some(ms) && ms > now,
    ensures
        retry_hint(message, Some(now)) matches Some(secs) && secs >= 1
            && secs * 1000 >= reset_epoch_ms(message)->0 - now,
{
    let ms = reset_epoch_ms(message)->0;
    let d = ms - now;
    assert(((d + 999) / 1000) * 1000 >= d) by (nonlinear_arith)
        requires d > 0;
}

} // verus!

verus! {

/// Texts joined with a separator between each two.
pub open spec fn joined(parts: Seq<Seq<char>>, sep: Seq<char>) -> Seq<char>
    decreases parts.len(),
{
    if parts.len() == 0 {
        Seq::empty()
    } else if parts.len() == 1 {
        parts[0]
    } else {
        joined(parts.drop_last(), sep) + sep + parts.last()
    }
}

/// Joins texts with a separator between each two.
pub fn join_texts(parts: &Vec<String>, sep: &str) -> (r: String)
    ensures
        r@ == joined(parts@.map_values(|s: String| s@), sep@),
{
    let ghost ps = parts@.map_values(|s: String| s@);
    let mut out = String::new();
    let mut i: usize = 0;
    while i < parts.len()
        invariant
            i <= parts@.len(),
            ps == parts@.map_values(|s: String| s@),
            ps.len() == parts@.len(),
            out@ == joined(ps.take(i as int), sep@),
        decreases parts@.len() - i,
    {
        if i > 0 {
            out.append(sep);
        }
        out.append(parts[i].as_str());
        proof {
            let t = ps.take(i + 1);
            assert(t.drop_last() =~= ps.take(i as int));
            assert(t.last() == ps[i as int]);
            if i == 0 {
                assert(t.len() == 1);
                assert(out@ =~= joined(t, sep@));
            }
        }
        i = i + 1;
    }
    assert(ps.take(ps.len() as int) =~= ps);
    out
}

/// The diagnostics appended to the "all keys rate limited" error when key
/// debugging is on: the keys tried, then the pool's lines (or `<empty>`).
pub open spec fn diagnostics(message: Seq<char>, tried: Seq<Seq<char>>, lines: Seq<Seq<char>>) -> Seq<char> {
    message + " tried_keys=["@ + joined(tried, ","@) + "] pool=["@
        + (if lines.len() == 0 { "<empty>"@ } else { joined(lines, ", "@) }) + "]"@
}

/// Whether the `NIMBOX_DEBUG_KEYS` setting turns key diagnostics on: `1`, or
/// `true` or `yes` in any mix of ASCII case.
pub open spec fn debug_flag(v: Seq<char>) -> bool {
    v == "1"@ || ascii_lower(v) == "true"@ || ascii_lower(v) == "yes"@
}

/// The text with ASCII capitals lowered.
pub open spec fn ascii_lower(v: Seq<char>) -> Seq<char> {
    v.map_values(|c: char| if 'A' <= c <= 'Z' { ((c as u32) + 32) as char } else { c })
}

fn ascii_lowered(v: &str) -> (r: String)
    ensures
        r@ == ascii_lower(v@),
{
    let cs = chars_of(v);
    let mut out = String::new();
    let mut i: usize = 0;
    while i < cs.len()
        invariant
            i <= cs@.len(),
            cs@ == v@,
            out@ == ascii_lower(cs@.take(i as int)),
        decreases cs@.len() - i,
    {
        let c = cs[i];
        let d = if 'A' <= c && c <= 'Z' { ((c as u8) + 32) as char } else { c };
        crate::text::push_char(&mut out, d);
        assert(ascii_lower(cs@.take(i + 1)) =~= ascii_lower(cs@.take(i as int)).push(d));
        i = i + 1;
    }
    assert(cs@.take(cs@.len() as int) =~= cs@);
    out
}

/// Whether a `NIMBOX_DEBUG_KEYS` value turns key diagnostics on.
pub fn key_debug_enabled(value: &str) -> (r: bool)
    ensures
        r == debug_flag(value@),
{
    if crate::text::str_eq(value, "1") {
        return true;
    }
    let lower = ascii_lowered(value);
    crate::text::str_eq(lower.as_str(), "true") || crate::text::str_eq(lower.as_str(), "yes")
}

impl RetryState {
    /// The "all keys rate limited" error with key diagnostics: the names of the
    /// keys tried and the pool's lines; no secret appears in it.
    pub fn no_key_diagnostics(&self, message: String, pool_lines: &Vec<String>) -> (r: String)
        ensures
            r@ == diagnostics(message@, self.tried(), pool_lines@.map_values(|s: String| s@)),
    {
        let mut r = message;
        r.append(" tried_keys=[");
        r.append(join_texts(&self.tried_keys, ",").as_str());
        r.append("] pool=[");
        if pool_lines.len() == 0 {
            r.append("<empty>");
        } else {
            r.append(join_texts(pool_lines, ", ").as_str());
        }
        r.append("]");
        proof {
            assert(pool_lines@.map_values(|s: String| s@).len() == pool_lines@.len());
        }
        r
    }
}

/// Secrets never reach the diagnostics: two pools whose keys agree in name,
/// counters and cooldown but differ in their secrets give the same pool lines,
/// and so the same error text for the same message and keys tried.
pub proof fn law_diagnostics_hide_secrets(
    k1: Seq<KeyState>,
    k2: Seq<KeyState>,
    message: Seq<char>,
    tried: Seq<Seq<char>>,
    now: u64,
)
    requires
        k1.len() == k2.len(),
        forall|i: int| 0 <= i < k1.len() ==> {
            &&& (#[trigger] k1[i]).name == k2[i].name
            &&& k1[i].cooldown_until == k2[i].cooldown_until
            &&& k1[i].successes == k2[i].successes
            &&& k1[i].failures == k2[i].failures
        },
    ensures
        crate::key_manager::pool_lines(k1, now) == crate::key_manager::pool_lines(k2, now),
        diagnostics(message, tried, crate::key_manager::pool_lines(k1, now))
            == diagnostics(message, tried, crate::key_manager::pool_lines(k2, now)),
{
    assert(crate::key_manager::pool_lines(k1, now) =~= crate::key_manager::pool_lines(k2, now));
}

/// A chat request run through the retry loop at one reading of each clock:
/// keys are picked and rate limits start at `now` on the pool's clock, retry
/// hints are read at `wall`; `answers(i)` is the provider's answer to the
/// `i`-th call (`None` for a success, else its error text), and `debug` says
/// whether key diagnostics are on. When the run ends within `fuel` key
/// acquisitions: the call that succeeded or the error the request fails with,
/// and the names of the keys tried, in order.
pub open spec fn request_run(
    keys: Seq<KeyState>,
    cur: usize,
    now: u64,
    wall: Option<u64>,
    provider: Seq<char>,
    answers: spec_fn(nat) -> Option<Seq<char>>,
    debug: bool,
    limited: bool,
    tried: Seq<Seq<char>>,
    fuel: nat,
) -> Option<(Result<nat, Seq<char>>, Seq<Seq<char>>)>
    decreases fuel,
{
    if fuel == 0 {
        None
    } else {
        let (pick, next) = rotation_outcome(keys, cur, now);
        match pick {
            None => Some((Err(if !limited {
                no_keys_text(provider)
            } else if debug {
                diagnostics(all_limited_text(), tried, crate::key_manager::pool_lines(keys, now))
            } else {
                all_limited_text()
            }), tried)),
            Some(p) => {
                let call = tried.len();
                let tried2 = tried.push(p.0@);
                match answers(call) {
                    None => Some((Ok(call), tried2)),
                    Some(e) => if is_rate_limited(e) {
                        request_run(
                            reported(keys, p.0@, KeyReport::RateLimited(retry_hint(e, wall)), now),
                            next, now, wall, provider, answers, debug, true, tried2, (fuel - 1) as nat,
                        )
                    } else {
                        Some((Err(e), tried2))
                    },
                }
            },
        }
    }
}

/// Whether an answer, when it is a rate limit, rests the key: its retry hint
/// at `wall` is not zero seconds.
pub open spec fn rests_key(answer: Option<Seq<char>>, wall: Option<u64>) -> bool {
    match answer {
        Some(e) => is_rate_limited(e) ==> retry_hint(e, wall) != Some(0u64),
        None => true,
    }
}

/// The number of keys among the first `n` that do not rest at `now`.
pub open spec fn usable_count(keys: Seq<KeyState>, now: u64, n: nat) -> nat
    decreases n,
{
    if n == 0 || n > keys.len() {
        0
    } else {
        usable_count(keys, now, (n - 1) as nat) + if crate::key_manager::is_cooling(keys[n - 1], now) { 0nat } else { 1nat }
    }
}

/// Whether no two keys of a pool share a name.
pub open spec fn distinct_names(keys: Seq<KeyState>) -> bool {
    forall|i: int, j: int| 0 <= i < j < keys.len() ==> (#[trigger] keys[i]).name@ != (#[trigger] keys[j]).name@
}

proof fn lemma_usable_drop(keys: Seq<KeyState>, changed: Seq<KeyState>, now: u64, s: int, n: nat)
    requires
        n <= keys.len(),
        changed.len() == keys.len(),
        0 <= s < keys.len(),
        forall|i: int| 0 <= i < keys.len() && i != s ==> changed[i] == keys[i],
        !crate::key_manager::is_cooling(keys[s], now),
        crate::key_manager::is_cooling(changed[s], now),
    ensures
        usable_count(changed, now, n) + (if s < n { 1nat } else { 0nat }) == usable_count(keys, now, n),
    decreases n,
{
    if n > 0 {
        lemma_usable_drop(keys, changed, now, s, (n - 1) as nat);
    }
}

proof fn lemma_usable_bound(keys: Seq<KeyState>, now: u64, n: nat)
    requires
        n <= keys.len(),
    ensures
        usable_count(keys, now, n) <= n,
    decreases n,
{
    if n > 0 {
        lemma_usable_bound(keys, now, (n - 1) as nat);
    }
}

proof fn lemma_find_unique(keys: Seq<KeyState>, s: int, k: nat)
    requires
        distinct_names(keys),
        0 <= s < keys.len(),
        k <= s,
    ensures
        crate::key_manager::find_from(keys, keys[s].name@, k) == Some(s),
    decreases s - k,
{
    if k < s {
        assert(keys[k as int].name@ != keys[s].name@);
        lemma_find_unique(keys, s, k + 1);
    }
}

/// A rate limit with a hint other than zero puts the key to rest at the time
/// it starts, unless that time is the clock's last reading.
pub proof fn law_rate_limit_rests_at_once(k: KeyState, hint: Option<u64>, now: u64)
    requires
        hint != Some(0u64),
        now < u64::MAX,
    ensures
        crate::key_manager::is_cooling(crate::key_manager::rate_limited(k, hint, now), now),
{
    let secs = match hint {
        Some(s) => s,
        None => crate::key_manager::backoff_secs(crate::key_manager::bump(k.failures)),
    };
    crate::key_manager::law_backoff_bounds(crate::key_manager::bump(k.failures));
    assert(secs >= 1);
    assert(secs * 1_000_000_000 >= 1) by (nonlinear_arith)
        requires secs >= 1;
}

/// Once every key of the pool rests, no key is handed out.
pub proof fn law_resting_pool_gives_no_key(keys: Seq<KeyState>, cur: usize, now: u64)
    requires
        forall|i: int| 0 <= i < keys.len() ==> crate::key_manager::is_cooling(#[trigger] keys[i], now),
    ensures
        rotation_outcome(keys, cur, now).0 is None,
{
    if rotation_outcome(keys, cur, now).0 is Some {
        crate::key_manager::law_picked_key_is_usable(keys, cur, now);
    }
}

proof fn lemma_run_bound(
    keys: Seq<KeyState>,
    cur: usize,
    now: u64,
    wall: Option<u64>,
    provider: Seq<char>,
    answers: spec_fn(nat) -> Option<Seq<char>>,
    debug: bool,
    limited: bool,
    tried: Seq<Seq<char>>,
    fuel: nat,
)
    requires
        now < u64::MAX,
        distinct_names(keys),
        forall|k: nat| rests_key(#[trigger] answers(k), wall),
        fuel > usable_count(keys, now, keys.len()),
    ensures
        request_run(keys, cur, now, wall, provider, answers, debug, limited, tried, fuel) matches Some(r)
            && r.1.len() <= tried.len() + usable_count(keys, now, keys.len()),
    decreases fuel,
{
    let (pick, next) = rotation_outcome(keys, cur, now);
    if let Some(p) = pick {
        crate::key_manager::law_picked_key_is_usable(keys, cur, now);
        let s = choose|i: int| #![trigger keys[i]]
            0 <= i < keys.len()
            && rotation_outcome(keys, cur, now).0 == Some((keys[i].name, keys[i].key))
            && !crate::key_manager::is_cooling(keys[i], now);
        let tried2 = tried.push(p.0@);
        if let Some(e) = answers(tried.len()) {
            if is_rate_limited(e) {
                let hint = retry_hint(e, wall);
                lemma_find_unique(keys, s, 0);
                let changed = keys.update(s, crate::key_manager::rate_limited(keys[s], hint, now));
                assert(reported(keys, p.0@, KeyReport::RateLimited(hint), now) == changed);
                law_rate_limit_rests_at_once(keys[s], hint, now);
                lemma_usable_drop(keys, changed, now, s, keys.len());
                assert(distinct_names(changed)) by {
                    assert forall|i: int, j: int| 0 <= i < j < changed.len()
                        implies (#[trigger] changed[i]).name@ != (#[trigger] changed[j]).name@ by {
                        assert(changed[i].name == keys[i].name);
                        assert(changed[j].name == keys[j].name);
                    }
                }
                lemma_run_bound(changed, next, now, wall, provider, answers, debug, true, tried2, (fuel - 1) as nat);
            } else {
                let changed = keys.update(s, crate::key_manager::rate_limited(keys[s], None, now));
                law_rate_limit_rests_at_once(keys[s], None, now);
                lemma_usable_drop(keys, changed, now, s, keys.len());
            }
        } else {
            let changed = keys.update(s, crate::key_manager::rate_limited(keys[s], None, now));
            law_rate_limit_rests_at_once(keys[s], None, now);
            lemma_usable_drop(keys, changed, now, s, keys.len());
        }
    }
}

/// A request ends: in a pool of keys with distinct names, where every rate
/// limit rests its key (no hint of zero seconds), a run at one clock reading
/// needs at most one acquisition more than there are keys, and makes at most
/// as many provider calls as there are keys.
pub proof fn law_request_ends(
    keys: Seq<KeyState>,
    cur: usize,
    now: u64,
    wall: Option<u64>,
    provider: Seq<char>,
    answers: spec_fn(nat) -> Option<Seq<char>>,
    debug: bool,
)
    requires
        now < u64::MAX,
        distinct_names(keys),
        forall|k: nat| rests_key(#[trigger] answers(k), wall),
    ensures
        request_run(keys, cur, now, wall, provider, answers, debug, false, Seq::empty(), keys.len() + 1) matches Some(r)
            && r.1.len() <= keys.len(),
{
    lemma_usable_bound(keys, now, keys.len());
    lemma_run_bound(keys, cur, now, wall, provider, answers, debug, false, Seq::empty(), keys.len() + 1);
}

/// Whether two pools differ at most in their keys' secrets.
pub open spec fn same_but_secrets(k1: Seq<KeyState>, k2: Seq<KeyState>) -> bool {
    &&& k1.len() == k2.len()
    &&& forall|i: int| 0 <= i < k1.len() ==> {
        &&& (#[trigger] k1[i]).name == k2[i].name
        &&& k1[i].cooldown_until == k2[i].cooldown_until
        &&& k1[i].successes == k2[i].successes
        &&& k1[i].failures == k2[i].failures
    }
}

proof fn lemma_find_ignores_secrets(k1: Seq<KeyState>, k2: Seq<KeyState>, name: Seq<char>, k: nat)
    requires
        same_but_secrets(k1, k2),
    ensures
        crate::key_manager::find_from(k1, name, k) == crate::key_manager::find_from(k2, name, k),
    decreases k1.len() - k,
{
    if k < k1.len() {
        assert(k1[k as int].name == k2[k as int].name);
        lemma_find_ignores_secrets(k1, k2, name, k + 1);
    }
}

proof fn lemma_rate_limit_ignores_secrets(k1: Seq<KeyState>, k2: Seq<KeyState>, name: Seq<char>, hint: Option<u64>, now: u64)
    requires
        same_but_secrets(k1, k2),
    ensures
        same_but_secrets(after_rate_limit(k1, name, hint, now), after_rate_limit(k2, name, hint, now)),
{
    lemma_find_ignores_secrets(k1, k2, name, 0);
    if let Some(i) = crate::key_manager::find_key(k1, name) {
        crate::key_manager::lemma_find_from(k1, name, 0);
        assert(k1[i].name == k2[i].name);
    }
}

proof fn lemma_run_ignores_secrets(
    k1: Seq<KeyState>,
    k2: Seq<KeyState>,
    cur: usize,
    now: u64,
    wall: Option<u64>,
    provider: Seq<char>,
    answers: spec_fn(nat) -> Option<Seq<char>>,
    debug: bool,
    limited: bool,
    tried: Seq<Seq<char>>,
    fuel: nat,
)
    requires
        same_but_secrets(k1, k2),
    ensures
        request_run(k1, cur, now, wall, provider, answers, debug, limited, tried, fuel)
            == request_run(k2, cur, now, wall, provider, answers, debug, limited, tried, fuel),
    decreases fuel,
{
    if fuel > 0 {
        crate::key_manager::law_secrets_do_not_steer_rotation(k1, k2, cur, now);
        law_diagnostics_hide_secrets(k1, k2, all_limited_text(), tried, now);
        let (p1, next) = rotation_outcome(k1, cur, now);
        if let Some(p) = p1 {
            let q = rotation_outcome(k2, cur, now).0->0;
            assert(p.0 == q.0);
            if let Some(e) = answers(tried.len()) {
                if is_rate_limited(e) {
                    let hint = retry_hint(e, wall);
                    lemma_rate_limit_ignores_secrets(k1, k2, p.0@, hint, now);
                    lemma_run_ignores_secrets(
                        after_rate_limit(k1, p.0@, hint, now), after_rate_limit(k2, p.0@, hint, now), next, now,
                        wall, provider, answers, debug, true, tried.push(p.0@), (fuel - 1) as nat,
                    );
                }
            }
        }
    }
}

/// Secrets never steer a request: two pools that differ only in their keys'
/// secrets, given the same provider answers, end a run the same way (the same
/// call answered, or the same error text, diagnostics included) after trying
/// keys of the same names.
pub proof fn law_request_ignores_secrets(
    k1: Seq<KeyState>,
    k2: Seq<KeyState>,
    cur: usize,
    now: u64,
    wall: Option<u64>,
    provider: Seq<char>,
    answers: spec_fn(nat) -> Option<Seq<char>>,
    debug: bool,
    fuel: nat,
)
    requires
        same_but_secrets(k1, k2),
    ensures
        request_run(k1, cur, now, wall, provider, answers, debug, false, Seq::empty(), fuel)
            == request_run(k2, cur, now, wall, provider, answers, debug, false, Seq::empty(), fuel),
{
    lemma_run_ignores_secrets(k1, k2, cur, now, wall, provider, answers, debug, false, Seq::empty(), fuel);
}

} // verus!
