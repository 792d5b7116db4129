use vstd::prelude::*;
use std::time::Instant;
use crate::config::ApiKey;
use crate::clock::{elapsed_nanos, start_clock};
use crate::text::str_eq;

verus! {

/// Runtime state of one key of the rotation pool.
pub struct KeyState {
    pub name: String,
    pub key: String,
    /// The time on the pool's clock (nanoseconds) until which the key rests
    /// after a rate limit.
    pub cooldown_until: Option<u64>,
    pub successes: u64,
    pub failures: u64,
}

/// A key rests at `now` while its cooldown lies strictly in the future.
pub open spec fn is_cooling(k: KeyState, now: u64) -> bool {
    match k.cooldown_until {
        Some(until) => until > now,
        None => false,
    }
}

/// The diagnostic line of one pool key: its name, its counts of successes and
/// failures, and whether it rests at `now`. It never holds the secret.
pub open spec fn state_line(k: KeyState, now: u64) -> Seq<char> {
    k.name@ + " successes="@ + crate::text::decimal(k.successes as nat) + " failures="@
        + crate::text::decimal(k.failures as nat) + (if is_cooling(k, now) { " cooling"@ } else { ""@ })
}

/// The diagnostic lines of a pool at `now`, one per key in pool order.
pub open spec fn pool_lines(keys: Seq<KeyState>, now: u64) -> Seq<Seq<char>> {
    keys.map_values(|k: KeyState| state_line(k, now))
}


/// The successor of a rotation cursor; the cursor wraps around at `usize::MAX`.
pub open spec fn next_slot(c: usize) -> usize {
    if c == usize::MAX { 0 } else { (c + 1) as usize }
}

/// The cursor after `j` steps from `cur`.
pub open spec fn probe(cur: usize, j: nat) -> usize
    decreases j,
{
    if j == 0 { cur } else { next_slot(probe(cur, (j - 1) as nat)) }
}

/// Index of the pool visited at step `j` of a scan that starts at cursor `cur`.
pub open spec fn slot_index(cur: usize, j: nat, len: nat) -> int {
    probe(cur, j) as int % len as int
}

/// The first step, from `j` on and below the pool size, that visits a resting-free key.
pub open spec fn first_free(keys: Seq<KeyState>, cur: usize, now: u64, j: nat) -> Option<nat>
    decreases keys.len() - j,
{
    if j >= keys.len() {
        None
    } else if !is_cooling(keys[slot_index(cur, j, keys.len())], now) {
        Some(j)
    } else {
        first_free(keys, cur, now, j + 1)
    }
}

/// Position of the first key called `name`, from index `i` on.
pub open spec fn find_from(keys: Seq<KeyState>, name: Seq<char>, i: nat) -> Option<int>
    decreases keys.len() - i,
{
    if i >= keys.len() {
        None
    } else if keys[i as int].name@ == name {
        Some(i as int)
    } else {
        find_from(keys, name, i + 1)
    }
}

/// Position of the first key called `name`.
pub open spec fn find_key(keys: Seq<KeyState>, name: Seq<char>) -> Option<int> {
    find_from(keys, name, 0)
}

/// `2^e` for small exponents.
pub open spec fn pow_two(e: nat) -> nat
    decreases e,
{
    if e == 0 { 1 } else { 2 * pow_two((e - 1) as nat) }
}

/// The failure counter after one more failure; it wraps around at `u64::MAX`.
pub open spec fn bump(n: u64) -> u64 {
    if n == u64::MAX { 0 } else { (n + 1) as u64 }
}

/// Cooldown in seconds after the `failures`-th consecutive failure when the provider
/// gave no retry hint: 60 s doubling per failure, capped at one hour.
pub open spec fn backoff_secs(failures: u64) -> u64 {
    let exponent: nat = if failures == 0 { 6 } else if failures - 1 < 6 { (failures - 1) as nat } else { 6 };
    let secs = 60 * pow_two(exponent);
    if secs < 3600 { secs as u64 } else { 3600 }
}

/// End of a cooldown of `secs` seconds that starts at `now` (nanoseconds on the pool's clock),
/// saturating at `u64::MAX`.
pub open spec fn cooldown_end(now: u64, secs: u64) -> u64 {
    let t = now + secs * 1_000_000_000;
    if t > u64::MAX { u64::MAX } else { t as u64 }
}

/// A key after a rate-limit report.
pub open spec fn rate_limited(k: KeyState, retry_after: Option<u64>, now: u64) -> KeyState {
    let failures = bump(k.failures);
    let secs = match retry_after {
        Some(s) => s,
        None => backoff_secs(failures),
    };
    KeyState {
        name: k.name,
        key: k.key,
        cooldown_until: Some(cooldown_end(now, secs)),
        successes: k.successes,
        failures,
    }
}

/// A key after a non-rate-limit failure: only the failure counter moves.
pub open spec fn errored(k: KeyState) -> KeyState {
    KeyState {
        name: k.name,
        key: k.key,
        cooldown_until: k.cooldown_until,
        successes: k.successes,
        failures: bump(k.failures),
    }
}

/// A key after a success: one more success, backoff reset, cooldown cleared.
pub open spec fn succeeded(k: KeyState) -> KeyState {
    KeyState {
        name: k.name,
        key: k.key,
        cooldown_until: None,
        successes: bump(k.successes),
        failures: 0,
    }
}

/// The step that a success applies to a key.
pub open spec fn success_step() -> spec_fn(KeyState) -> KeyState {
    |k: KeyState| succeeded(k)
}

/// The step that a failure other than a rate limit applies to a key.
pub open spec fn error_step() -> spec_fn(KeyState) -> KeyState {
    |k: KeyState| errored(k)
}

/// Applies `f` to the first key called `name`, if there is one.
pub open spec fn update_named(keys: Seq<KeyState>, name: Seq<char>, f: spec_fn(KeyState) -> KeyState) -> Seq<KeyState> {
    match find_key(keys, name) {
        Some(i) => keys.update(i, f(keys[i])),
        None => keys,
    }
}

/// The pool after a rate-limit report on the key called `name` at time `now`.
pub open spec fn after_rate_limit(keys: Seq<KeyState>, name: Seq<char>, retry_after: Option<u64>, now: u64) -> Seq<KeyState> {
    update_named(keys, name, |k: KeyState| rate_limited(k, retry_after, now))
}

/// A fresh pool entry for a stored key.
pub open spec fn fresh_key(a: ApiKey) -> KeyState {
    KeyState { name: a.name, key: a.key, cooldown_until: None, successes: 0, failures: 0 }
}

/// Folds one stored key into the pool: a known name takes the stored secret,
/// an unknown name joins the pool at its end.
pub open spec fn absorb_one(keys: Seq<KeyState>, a: ApiKey) -> Seq<KeyState> {
    match find_key(keys, a.name@) {
        Some(i) => keys.update(i, KeyState {
            name: keys[i].name,
            key: a.key,
            cooldown_until: keys[i].cooldown_until,
            successes: keys[i].successes,
            failures: keys[i].failures,
        }),
        None => keys.push(fresh_key(a)),
    }
}

/// Folds all stored keys, in order, into the pool.
pub open spec fn absorb(keys: Seq<KeyState>, stored: Seq<ApiKey>) -> Seq<KeyState>
    decreases stored.len(),
{
    if stored.len() == 0 {
        keys
    } else {
        absorb_one(absorb(keys, stored.drop_last()), stored.last())
    }
}

/// Names of the stored keys.
pub open spec fn stored_names(stored: Seq<ApiKey>) -> Seq<Seq<char>> {
    stored.map_values(|a: ApiKey| a.name@)
}

/// The pool after a synchronisation with the stored keys.
pub open spec fn synced(keys: Seq<KeyState>, stored: Seq<ApiKey>) -> Seq<KeyState> {
    absorb(keys, stored).filter(still_stored(stored))
}

/// Whether a pool key's name is among the stored names.
pub open spec fn still_stored(stored: Seq<ApiKey>) -> spec_fn(KeyState) -> bool {
    |k: KeyState| stored_names(stored).contains(k.name@)
}

/// Whether some stored key is called `name`.
fn names_contain(stored: &Vec<ApiKey>, name: &str) -> (r: bool)
    ensures
        r == stored_names(stored@).contains(name@),
{
    let mut i: usize = 0;
    while i < stored.len()
        invariant
            i <= stored@.len(),
            forall|t: int| 0 <= t < i ==> stored@[t].name@ != name@,
        decreases stored@.len() - i,
    {
        if str_eq(stored[i].name.as_str(), name) {
            assert(stored_names(stored@)[i as int] == name@);
            return true;
        }
        i = i + 1;
    }
    assert forall|t: int| 0 <= t < stored_names(stored@).len() implies stored_names(stored@)[t] != name@ by {
        assert(stored_names(stored@)[t] == stored@[t].name@);
    }
    false
}

/// Computes `backoff_secs`.
fn backoff_seconds(failures: u64) -> (r: u64)
    ensures
        r == backoff_secs(failures),
{
    let exponent: u64 = if failures == 0 { 6 } else if failures - 1 < 6 { failures - 1 } else { 6 };
    let mut secs: u64 = 60;
    let mut i: u64 = 0;
    while i < exponent
        invariant
            i <= exponent <= 6,
            secs == 60 * pow_two(i as nat),
            secs <= 3840,
        decreases exponent - i,
    {
        assert(pow_two((i + 1) as nat) == 2 * pow_two(i as nat));
        assert(60 * pow_two((i + 1) as nat) <= 3840) by {
            lemma_pow_two_bound((i + 1) as nat);
        }
        secs = secs * 2;
        i = i + 1;
    }
    if secs < 3600 { secs } else { 3600 }
}

proof fn lemma_pow_two_bound(e: nat)
    requires
        e <= 6,
    ensures
        pow_two(e) <= 64,
{
    reveal_with_fuel(pow_two, 7);
    if e == 0 {} else if e == 1 {} else if e == 2 {} else if e == 3 {} else if e == 4 {} else if e == 5 {} else {}
}

/// What one scan of the rotation does to a pool of `keys` with cursor `cur` at
/// time `now`: the key picked, if any, and the cursor afterwards.
pub open spec fn rotation_outcome(keys: Seq<KeyState>, cur: usize, now: u64) -> (Option<(String, String)>, usize) {
    match first_free(keys, cur, now, 0) {
        Some(j) => {
            let k = keys[slot_index(cur, j, keys.len())];
            (Some((k.name, k.key)), probe(cur, j + 1))
        },
        None => (None, probe(cur, keys.len())),
    }
}

/// A round-robin pool of API keys with per-key cooldowns.
pub struct KeyManager {
    keys: Vec<KeyState>,
    current: usize,
    /// The instant from which the pool's clock counts nanoseconds.
    origin: Instant,
}

impl KeyManager {
    /// The keys of the pool, in rotation order.
    pub closed spec fn pool(&self) -> Seq<KeyState> {
        self.keys@
    }

    /// The rotation cursor.
    pub closed spec fn cursor(&self) -> usize {
        self.current
    }

    pub fn new() -> (m: Self)
        ensures
            m.pool() == Seq::<KeyState>::empty(),
            m.cursor() == 0,
    {
        KeyManager { keys: Vec::new(), current: 0, origin: start_clock() }
    }

    /// The keys of the pool, as a copy.
    pub fn keys(&self) -> (r: &Vec<KeyState>)
        ensures
            r@ == self.pool(),
    {
        &self.keys
    }

    /// The diagnostic lines of a pool at `now`, one per key in pool order.
    pub fn debug_state_lines_at(&self, now: u64) -> (r: Vec<String>)
        ensures
            r@.map_values(|s: String| s@) == pool_lines(self.pool(), now),
    {
        let keys = &self.keys;
        let mut out: Vec<String> = Vec::new();
        let mut i: usize = 0;
        while i < keys.len()
            invariant
                i <= keys@.len(),
                out@.map_values(|s: String| s@) == keys@.take(i as int).map_values(|k: KeyState| state_line(k, now)),
            decreases keys@.len() - i,
        {
            let k = &keys[i];
            let mut line = k.name.clone();
            line.append(" successes=");
            line.append(crate::text::decimal_string(k.successes as u128).as_str());
            line.append(" failures=");
            line.append(crate::text::decimal_string(k.failures as u128).as_str());
            let cooling = match k.cooldown_until {
                Some(until) => until > now,
                None => false,
            };
            if cooling {
                line.append(" cooling");
            }
            proof {
                reveal_strlit("");
                assert(line@ =~= state_line(*k, now));
            }
            let ghost before = out@;
            out.push(line);
            assert(out@.map_values(|s: String| s@) =~= before.map_values(|s: String| s@).push(state_line(*k, now)));
            assert(keys@.take(i + 1).map_values(|k: KeyState| state_line(k, now))
                =~= keys@.take(i as int).map_values(|k: KeyState| state_line(k, now)).push(state_line(keys@[i as int], now)));
            i = i + 1;
        }
        assert(keys@.take(keys@.len() as int) =~= keys@);
        out
    }

    /// The diagnostic lines of the pool at the current time of its clock.
    pub fn debug_state_lines(&self) -> (r: Vec<String>)
        ensures
            exists|now: u64| r@.map_values(|s: String| s@) == #[trigger] pool_lines(self.pool(), now),
    {
        let now = elapsed_nanos(&self.origin);
        self.debug_state_lines_at(now)
    }

    /// Picks the next key in rotation that is not resting at `now`
    /// (nanoseconds on the pool's clock), scanning at most once around the
    /// pool from the cursor.
    pub fn next_key_at(&mut self, now: u64) -> (r: Option<(String, String)>)
        ensures
            final(self).pool() == old(self).pool(),
            (r, final(self).cursor()) == rotation_outcome(old(self).pool(), old(self).cursor(), now),
    {
        let len = self.keys.len();
        if len == 0 {
            return None;
        }
        let mut i: usize = 0;
        while i < len
            invariant
                i <= len,
                len == self.keys@.len(),
                self.keys@ == old(self).keys@,
                self.current == probe(old(self).current, i as nat),
                first_free(old(self).keys@, old(self).current, now, 0)
                    == first_free(old(self).keys@, old(self).current, now, i as nat),
            decreases len - i,
        {
            let idx = self.current % len;
            self.current = if self.current == usize::MAX { 0 } else { self.current + 1 };
            let cooling = match self.keys[idx].cooldown_until {
                Some(until) => until > now,
                None => false,
            };
            if !cooling {
                let k = &self.keys[idx];
                return Some((k.name.clone(), k.key.clone()));
            }
            i = i + 1;
        }
        None
    }

    /// Picks the next usable key at the current time of the pool's clock.
    pub fn next_key(&mut self) -> (r: Option<(String, String)>)
        ensures
            final(self).pool() == old(self).pool(),
            exists|now: u64| (r, final(self).cursor()) == rotation_outcome(old(self).pool(), old(self).cursor(), now),
    {
        let now = elapsed_nanos(&self.origin);
        self.next_key_at(now)
    }

    /// Puts the first key called `key_name` on cooldown, starting at the current
    /// time of the pool's clock; see `report_rate_limit_at`.
    pub fn report_rate_limit_with_retry(&mut self, key_name: &str, retry_after: Option<u64>)
        ensures
            exists|now: u64| final(self).pool() == #[trigger] after_rate_limit(old(self).pool(), key_name@, retry_after, now),
            final(self).cursor() == old(self).cursor(),
    {
        let now = elapsed_nanos(&self.origin);
        self.report_rate_limit_at(key_name, retry_after, now);
    }

    /// Puts the first key called `key_name` on cooldown after a rate limit:
    /// `retry_after` seconds when the provider gave a hint, else an exponential
    /// backoff in the number of consecutive failures.
    pub fn report_rate_limit_at(&mut self, key_name: &str, retry_after: Option<u64>, now: u64)
        ensures
            final(self).pool() == after_rate_limit(old(self).pool(), key_name@, retry_after, now),
            final(self).cursor() == old(self).cursor(),
    {
        match self.find_index(key_name) {
            Some(i) => {
                let k = &self.keys[i];
                let failures = if k.failures == u64::MAX { 0 } else { k.failures + 1 };
                let secs = match retry_after {
                    Some(s) => s,
                    None => backoff_seconds(failures),
                };
                let span: u64 = if secs <= u64::MAX / 1_000_000_000 { secs * 1_000_000_000 } else { u64::MAX };
                let until = now.saturating_add(span);
                let updated = KeyState {
                    name: k.name.clone(),
                    key: k.key.clone(),
                    cooldown_until: Some(until),
                    successes: k.successes,
                    failures,
                };
                self.keys.set(i, updated);
            },
            None => {},
        }
    }

    /// Counts a failure that is no rate limit; the key stays usable.
    pub fn report_error(&mut self, key_name: &str)
        ensures
            final(self).pool() == update_named(old(self).pool(), key_name@, error_step()),
            final(self).cursor() == old(self).cursor(),
    {
        match self.find_index(key_name) {
            Some(i) => {
                let k = &self.keys[i];
                let updated = KeyState {
                    name: k.name.clone(),
                    key: k.key.clone(),
                    cooldown_until: k.cooldown_until,
                    successes: k.successes,
                    failures: if k.failures == u64::MAX { 0 } else { k.failures + 1 },
                };
                self.keys.set(i, updated);
            },
            None => {},
        }
    }

    /// Counts a success: the backoff resets and any cooldown ends.
    pub fn report_success(&mut self, key_name: &str)
        ensures
            final(self).pool() == update_named(old(self).pool(), key_name@, success_step()),
            final(self).cursor() == old(self).cursor(),
    {
        match self.find_index(key_name) {
            Some(i) => {
                let k = &self.keys[i];
                let updated = KeyState {
                    name: k.name.clone(),
                    key: k.key.clone(),
                    cooldown_until: None,
                    successes: if k.successes == u64::MAX { 0 } else { k.successes + 1 },
                    failures: 0,
                };
                self.keys.set(i, updated);
            },
            None => {},
        }
    }

    /// Brings the pool in line with the stored keys: known names take the stored
    /// secret and keep their counters, new names join at the end, and names no
    /// longer stored leave the pool.
    pub fn sync_with_store(&mut self, stored: &Vec<ApiKey>)
        ensures
            final(self).pool() == synced(old(self).pool(), stored@),
            final(self).cursor() == old(self).cursor(),
    {
        let mut i: usize = 0;
        while i < stored.len()
            invariant
                i <= stored@.len(),
                self.keys@ == absorb(old(self).keys@, stored@.take(i as int)),
                self.current == old(self).current,
            decreases stored@.len() - i,
        {
            let a = &stored[i];
            match self.find_index(a.name.as_str()) {
                Some(j) => {
                    let k = &self.keys[j];
                    let updated = KeyState {
                        name: k.name.clone(),
                        key: a.key.clone(),
                        cooldown_until: k.cooldown_until,
                        successes: k.successes,
                        failures: k.failures,
                    };
                    self.keys.set(j, updated);
                },
                None => {
                    self.keys.push(KeyState {
                        name: a.name.clone(),
                        key: a.key.clone(),
                        cooldown_until: None,
                        successes: 0,
                        failures: 0,
                    });
                },
            }
            assert(stored@.take(i + 1).drop_last() =~= stored@.take(i as int));
            i = i + 1;
        }
        assert(stored@.take(stored@.len() as int) =~= stored@);
        let ghost absorbed = self.keys@;
        let mut previous: Vec<KeyState> = Vec::new();
        std::mem::swap(&mut previous, &mut self.keys);
        let mut kept: Vec<KeyState> = Vec::new();
        let mut j: usize = 0;
        while j < previous.len()
            invariant
                j <= previous@.len(),
                previous@ == absorbed,
                kept@ == absorbed.take(j as int).filter(still_stored(stored@)),
            decreases previous@.len() - j,
        {
            let k = &previous[j];
            proof {
                reveal(Seq::filter);
                let t = absorbed.take(j + 1);
                assert(t.drop_last() =~= absorbed.take(j as int));
                assert(t.last() == absorbed[j as int]);
            }
            let keep = names_contain(stored, k.name.as_str());
            assert(keep == still_stored(stored@)(absorbed[j as int]));
            if keep {
                let copy = KeyState {
                    name: k.name.clone(),
                    key: k.key.clone(),
                    cooldown_until: k.cooldown_until,
                    successes: k.successes,
                    failures: k.failures,
                };
                assert(copy == absorbed[j as int]);
                kept.push(copy);
                assert(kept@ == absorbed.take(j + 1).filter(still_stored(stored@)));
            } else {
                assert(kept@ == absorbed.take(j + 1).filter(still_stored(stored@)));
            }
            j = j + 1;
        }
        assert(absorbed.take(absorbed.len() as int) =~= absorbed);
        self.keys = kept;
    }

    fn find_index(&self, name: &str) -> (r: Option<usize>)
        ensures
            r matches Some(i) ==> i < self.pool().len() && find_key(self.pool(), name@) == Some(i as int),
            r is None ==> find_key(self.pool(), name@) is None,
    {
        let mut i: usize = 0;
        while i < self.keys.len()
            invariant
                i <= self.keys@.len(),
                find_key(self.keys@, name@) == find_from(self.keys@, name@, i as nat),
            decreases self.keys@.len() - i,
        {
            if str_eq(self.keys[i].name.as_str(), name) {
                return Some(i);
            }
            i = i + 1;
        }
        None
    }
}

} // verus!

verus! {

proof fn lemma_first_free_from(keys: Seq<KeyState>, cur: usize, now: u64, k: nat)
    requires
        keys.len() > 0,
    ensures
        first_free(keys, cur, now, k) matches Some(j) ==> {
            &&& k <= j < keys.len()
            &&& !is_cooling(keys[slot_index(cur, j, keys.len())], now)
            &&& forall|m: nat| k <= m < j ==> is_cooling(#[trigger] keys[slot_index(cur, m, keys.len())], now)
        },
        first_free(keys, cur, now, k) is None ==>
            forall|m: nat| k <= m < keys.len() ==> is_cooling(#[trigger] keys[slot_index(cur, m, keys.len())], now),
    decreases keys.len() - k,
{
    if k < keys.len() {
        lemma_first_free_from(keys, cur, now, k + 1);
    }
}

proof fn lemma_slot_in_range(cur: usize, j: nat, len: nat)
    requires
        len > 0,
    ensures
        0 <= slot_index(cur, j, len) < len,
{
}

proof fn lemma_probe_no_wrap(cur: usize, j: nat)
    requires
        cur + j <= usize::MAX,
    ensures
        probe(cur, j) == cur + j,
    decreases j,
{
    if j > 0 {
        lemma_probe_no_wrap(cur, (j - 1) as nat);
    }
}

/// A picked key is one of the pool's keys, and it is not resting at the time
/// of the pick; every key the scan passed over before it was resting.
pub proof fn law_picked_key_is_usable(keys: Seq<KeyState>, cur: usize, now: u64)
    requires
        rotation_outcome(keys, cur, now).0 is Some,
    ensures
        exists|i: int| #![trigger keys[i]]
            0 <= i < keys.len()
            && rotation_outcome(keys, cur, now).0 == Some((keys[i].name, keys[i].key))
            && !is_cooling(keys[i], now),
{
    if keys.len() == 0 {
        assert(first_free(keys, cur, now, 0) is None);
    } else {
        lemma_first_free_from(keys, cur, now, 0);
        let j = first_free(keys, cur, now, 0)->0;
        let i = slot_index(cur, j, keys.len());
        lemma_slot_in_range(cur, j, keys.len());
        assert(keys[i] == keys[i]);
    }
}

/// The scan finds a key whenever some key of the pool is not resting, unless the
/// cursor is so close to `usize::MAX` that the scan would wrap around.
pub proof fn law_usable_key_is_found(keys: Seq<KeyState>, cur: usize, now: u64, i: int)
    requires
        0 <= i < keys.len(),
        !is_cooling(keys[i], now),
        cur + keys.len() <= usize::MAX,
    ensures
        rotation_outcome(keys, cur, now).0 is Some,
{
    let len = keys.len();
    let r = (cur as int) % (len as int);
    let j: nat = (if i >= r { i - r } else { i + len - r }) as nat;
    assert(j < len);
    lemma_probe_no_wrap(cur, j);
    assert(slot_index(cur, j, len) == i) by {
        let q = (cur as int) / (len as int);
        vstd::arithmetic::div_mod::lemma_fundamental_div_mod(cur as int, len as int);
        assert(cur as int == len * q + r);
        if i >= r {
            assert(cur + j == len * q + i);
            vstd::arithmetic::div_mod::lemma_mod_multiples_vanish(q, i, len as int);
        } else {
            assert(len * q + len == len * (q + 1)) by (nonlinear_arith);
            assert(cur + j == len * (q + 1) + i);
            vstd::arithmetic::div_mod::lemma_mod_multiples_vanish(q + 1, i, len as int);
        }
        vstd::arithmetic::div_mod::lemma_small_mod(i as nat, len);
    }
    lemma_first_free_from(keys, cur, now, 0);
    if first_free(keys, cur, now, 0) is None {
        assert(is_cooling(keys[slot_index(cur, j, len)], now));
    }
}

/// With every key usable, the pool is a plain round robin: the pick is the key
/// under the cursor and the cursor moves on by one.
pub proof fn law_round_robin(keys: Seq<KeyState>, cur: usize, now: u64)
    requires
        keys.len() > 0,
        forall|i: int| 0 <= i < keys.len() ==> !is_cooling(#[trigger] keys[i], now),
    ensures
        rotation_outcome(keys, cur, now) == (
            Some((keys[cur as int % keys.len() as int].name, keys[cur as int % keys.len() as int].key)),
            next_slot(cur),
        ),
{
    lemma_slot_in_range(cur, 0, keys.len());
}

/// The keys that successive picks hand out from the cursor `cur`, with the
/// pool unchanged in between and the `t`-th pick at the clock reading `nows[t]`.
pub open spec fn picks(keys: Seq<KeyState>, cur: usize, nows: Seq<u64>) -> Seq<Option<(String, String)>>
    decreases nows.len(),
{
    if nows.len() == 0 {
        Seq::empty()
    } else {
        let (p, next) = rotation_outcome(keys, cur, nows[0]);
        seq![p] + picks(keys, next, nows.drop_first())
    }
}

/// Whether no key of the pool rests at any of the readings `nows`.
pub open spec fn usable_throughout(keys: Seq<KeyState>, nows: Seq<u64>) -> bool {
    forall|i: int, t: int| #![trigger keys[i], nows[t]]
        0 <= i < keys.len() && 0 <= t < nows.len() ==> !is_cooling(keys[i], nows[t])
}

proof fn lemma_picks(keys: Seq<KeyState>, cur: usize, nows: Seq<u64>)
    requires
        keys.len() > 0,
        usable_throughout(keys, nows),
        cur + nows.len() <= usize::MAX,
    ensures
        picks(keys, cur, nows).len() == nows.len(),
        forall|j: int| 0 <= j < nows.len() ==> #[trigger] picks(keys, cur, nows)[j]
            == Some((keys[(cur + j) % (keys.len() as int)].name, keys[(cur + j) % (keys.len() as int)].key)),
    decreases nows.len(),
{
    if nows.len() > 0 {
        assert forall|i: int| 0 <= i < keys.len() implies !is_cooling(#[trigger] keys[i], nows[0]) by {
            assert(keys[i] == keys[i] && nows[0] == nows[0]);
        }
        law_round_robin(keys, cur, nows[0]);
        assert(next_slot(cur) == cur + 1);
        let later = nows.drop_first();
        assert(usable_throughout(keys, later)) by {
            assert forall|i: int, t: int| #![trigger keys[i], later[t]]
                0 <= i < keys.len() && 0 <= t < later.len() implies !is_cooling(keys[i], later[t]) by {
                assert(later[t] == nows[t + 1]);
            }
        }
        lemma_picks(keys, (cur + 1) as usize, later);
        let rest = picks(keys, (cur + 1) as usize, later);
        let first = Some((keys[cur as int % keys.len() as int].name, keys[cur as int % keys.len() as int].key));
        assert(picks(keys, cur, nows) == seq![first] + rest);
        assert forall|j: int| 0 <= j < nows.len() implies #[trigger] picks(keys, cur, nows)[j]
            == Some((keys[(cur + j) % (keys.len() as int)].name, keys[(cur + j) % (keys.len() as int)].key)) by {
            if j > 0 {
                assert(picks(keys, cur, nows)[j] == rest[j - 1]);
                assert((cur + 1) + (j - 1) == cur + j);
            }
        }
    }
}

proof fn lemma_positions_distinct(cur: int, len: int, j1: int, j2: int)
    requires
        0 < len,
        0 <= cur,
        0 <= j1 < j2 < len,
    ensures
        (cur + j1) % len != (cur + j2) % len,
{
    vstd::arithmetic::div_mod::lemma_mod_equivalence(cur + j2, cur + j1, len);
    assert((cur + j2) - (cur + j1) == j2 - j1);
    vstd::arithmetic::div_mod::lemma_small_mod((j2 - j1) as nat, len as nat);
}

proof fn lemma_position_reached(cur: int, len: int, i: int) -> (j: int)
    requires
        0 < len,
        0 <= cur,
        0 <= i < len,
    ensures
        0 <= j < len,
        (cur + j) % len == i,
{
    let q = cur / len;
    let r = cur % len;
    vstd::arithmetic::div_mod::lemma_fundamental_div_mod(cur, len);
    let j = if i >= r { i - r } else { i + len - r };
    if i >= r {
        assert(cur + j == len * q + i);
        vstd::arithmetic::div_mod::lemma_mod_multiples_vanish(q, i, len);
    } else {
        assert(cur + j == len * (q + 1) + i) by (nonlinear_arith)
            requires cur == len * q + r, j == i + len - r;
        vstd::arithmetic::div_mod::lemma_mod_multiples_vanish(q + 1, i, len);
    }
    vstd::arithmetic::div_mod::lemma_small_mod(i as nat, len as nat);
    j
}

/// The pool position of the `j`-th pick from the cursor `cur`, in a pool of
/// `len` keys with every key usable.
pub open spec fn position(cur: int, j: int, len: int) -> int {
    (cur + j) % len
}

/// Whether some pick among the first `len` from the cursor `cur` lands on
/// the position `i`.
pub open spec fn reached(cur: int, i: int, len: int) -> bool {
    exists|j: int| 0 <= j < len && #[trigger] position(cur, j, len) == i
}

/// With every key usable at each reading of the clock, `L` successive picks
/// from a pool of `L` keys, made at any readings, hand out every key exactly
/// once, in pool order from the key under the cursor, unless the cursor is so
/// close to `usize::MAX` that it would wrap around.
pub proof fn law_rotation_covers_pool(keys: Seq<KeyState>, cur: usize, nows: Seq<u64>)
    requires
        keys.len() > 0,
        nows.len() == keys.len(),
        usable_throughout(keys, nows),
        cur + keys.len() <= usize::MAX,
    ensures
        picks(keys, cur, nows).len() == keys.len(),
        forall|j: int| 0 <= j < keys.len() ==> #[trigger] picks(keys, cur, nows)[j]
            == Some((keys[position(cur as int, j, keys.len() as int)].name,
                keys[position(cur as int, j, keys.len() as int)].key)),
        forall|i: int| 0 <= i < keys.len() ==> #[trigger] reached(cur as int, i, keys.len() as int),
        forall|j1: int, j2: int| 0 <= j1 < j2 < keys.len()
            ==> #[trigger] position(cur as int, j1, keys.len() as int) != #[trigger] position(cur as int, j2, keys.len() as int),
{
    let len = keys.len() as int;
    lemma_picks(keys, cur, nows);
    assert forall|i: int| 0 <= i < keys.len() implies #[trigger] reached(cur as int, i, keys.len() as int) by {
        let j = lemma_position_reached(cur as int, len, i);
        assert(position(cur as int, j, len) == i);
    }
    assert forall|j1: int, j2: int| 0 <= j1 < j2 < keys.len()
        implies #[trigger] position(cur as int, j1, keys.len() as int) != #[trigger] position(cur as int, j2, keys.len() as int) by {
        lemma_positions_distinct(cur as int, len, j1, j2);
    }
}

proof fn lemma_first_free_ignores_secrets(k1: Seq<KeyState>, k2: Seq<KeyState>, cur: usize, now: u64, j: nat)
    requires
        k1.len() == k2.len(),
        forall|i: int| 0 <= i < k1.len() ==> (#[trigger] k1[i]).cooldown_until == k2[i].cooldown_until,
    ensures
        first_free(k1, cur, now, j) == first_free(k2, cur, now, j),
    decreases k1.len() - j,
{
    if j < k1.len() {
        lemma_slot_in_range(cur, j, k1.len());
        let s = slot_index(cur, j, k1.len());
        assert(k1[s].cooldown_until == k2[s].cooldown_until);
        lemma_first_free_ignores_secrets(k1, k2, cur, now, j + 1);
    }
}

/// Secrets do not steer the rotation: two pools that differ only in their
/// secrets and counters pick the key of the same name, or none, and leave the
/// cursor in the same place; so whether a request finds a key, and which
/// error it gets when none is left, never depends on a secret.
pub proof fn law_secrets_do_not_steer_rotation(k1: Seq<KeyState>, k2: Seq<KeyState>, cur: usize, now: u64)
    requires
        k1.len() == k2.len(),
        forall|i: int| 0 <= i < k1.len() ==> {
            &&& (#[trigger] k1[i]).name == k2[i].name
            &&& k1[i].cooldown_until == k2[i].cooldown_until
        },
    ensures
        rotation_outcome(k1, cur, now).1 == rotation_outcome(k2, cur, now).1,
        rotation_outcome(k1, cur, now).0 is None <==> rotation_outcome(k2, cur, now).0 is None,
        rotation_outcome(k1, cur, now).0 matches Some(p1) ==> (rotation_outcome(k2, cur, now).0 matches Some(p2)
            && p1.0 == p2.0),
{
    lemma_first_free_ignores_secrets(k1, k2, cur, now, 0);
    if let Some(j) = first_free(k1, cur, now, 0) {
        lemma_first_free_from(k1, cur, now, 0);
        lemma_slot_in_range(cur, j, k1.len());
        let s = slot_index(cur, j, k1.len());
        assert(k1[s].name == k2[s].name);
    }
}

/// A success ends any cooldown of the key it names.
pub proof fn law_success_ends_cooldown(k: KeyState, now: u64)
    ensures
        !is_cooling(succeeded(k), now),
        succeeded(k).failures == 0,
{
}

/// A failure other than a rate limit sets no cooldown: the key rests exactly
/// when it rested before, and only its failure count moves.
pub proof fn law_error_keeps_cooldown(k: KeyState, now: u64)
    ensures
        is_cooling(errored(k), now) == is_cooling(k, now),
        errored(k).cooldown_until == k.cooldown_until,
        errored(k).successes == k.successes,
        errored(k).failures == bump(k.failures),
{
}

/// A rate limit with a positive wait puts the key to rest at the time of the report.
pub proof fn law_rate_limit_rests_key(k: KeyState, retry_after: Option<u64>, now: u64)
    requires
        now < u64::MAX,
        retry_after != Some(0u64),
    ensures
        is_cooling(rate_limited(k, retry_after, now), now),
{
    let f = bump(k.failures);
    if retry_after is None {
        law_backoff_bounds(f);
    }
}

proof fn lemma_pow_two_positive(e: nat)
    ensures
        pow_two(e) >= 1,
    decreases e,
{
    if e > 0 {
        lemma_pow_two_positive((e - 1) as nat);
    }
}

proof fn lemma_pow_two_monotone(a: nat, b: nat)
    requires
        a <= b,
    ensures
        pow_two(a) <= pow_two(b),
    decreases b - a,
{
    if a < b {
        lemma_pow_two_monotone(a, (b - 1) as nat);
        lemma_pow_two_positive((b - 1) as nat);
    }
}

/// The backoff without a retry hint lies between one minute and one hour.
pub proof fn law_backoff_bounds(failures: u64)
    ensures
        60 <= backoff_secs(failures) <= 3600,
{
    let e: nat = if failures == 0 { 6 } else if failures - 1 < 6 { (failures - 1) as nat } else { 6 };
    lemma_pow_two_positive(e);
}

/// The backoff never shrinks as consecutive failures grow.
pub proof fn law_backoff_monotone(f1: u64, f2: u64)
    requires
        1 <= f1 <= f2,
    ensures
        backoff_secs(f1) <= backoff_secs(f2),
{
    let e1: nat = if f1 - 1 < 6 { (f1 - 1) as nat } else { 6 };
    let e2: nat = if f2 - 1 < 6 { (f2 - 1) as nat } else { 6 };
    lemma_pow_two_monotone(e1, e2);
}

pub(crate) proof fn lemma_find_from(keys: Seq<KeyState>, name: Seq<char>, k: nat)
    ensures
        find_from(keys, name, k) matches Some(i) ==> k <= i < keys.len() && keys[i].name@ == name,
    decreases keys.len() - k,
{
    if k < keys.len() {
        lemma_find_from(keys, name, k + 1);
    }
}

/// A report on one key leaves the pool's size, its order of names and secrets,
/// and every other key as they were.
pub proof fn law_report_touches_one_key(keys: Seq<KeyState>, name: Seq<char>, f: spec_fn(KeyState) -> KeyState)
    requires
        forall|k: KeyState| #[trigger] f(k).name == k.name && f(k).key == k.key,
    ensures
        update_named(keys, name, f).len() == keys.len(),
        forall|i: int| 0 <= i < keys.len() ==> {
            &&& (#[trigger] update_named(keys, name, f)[i]).name == keys[i].name
            &&& update_named(keys, name, f)[i].key == keys[i].key
            &&& keys[i].name@ != name ==> update_named(keys, name, f)[i] == keys[i]
        },
{
    lemma_find_from(keys, name, 0);
}

proof fn lemma_absorb_one_keeps_names(keys: Seq<KeyState>, a: ApiKey, i: int)
    requires
        0 <= i < keys.len(),
    ensures
        i < absorb_one(keys, a).len(),
        absorb_one(keys, a)[i].name == keys[i].name,
{
    lemma_find_from(keys, a.name@, 0);
}

proof fn lemma_absorb_covers(keys: Seq<KeyState>, stored: Seq<ApiKey>, t: int)
    requires
        0 <= t < stored.len(),
    ensures
        exists|i: int| 0 <= i < absorb(keys, stored).len() && (#[trigger] absorb(keys, stored)[i]).name@ == stored[t].name@,
    decreases stored.len(),
{
    let before = absorb(keys, stored.drop_last());
    let a = stored.last();
    lemma_find_from(before, a.name@, 0);
    let after = absorb_one(before, a);
    assert(absorb(keys, stored) == after);
    if t == stored.len() - 1 {
        match find_key(before, a.name@) {
            Some(i) => {
                assert(after[i].name@ == a.name@);
                assert(absorb(keys, stored)[i].name@ == stored[t].name@);
            },
            None => {
                let i = before.len() as int;
                assert(after[i].name@ == a.name@);
                assert(absorb(keys, stored)[i].name@ == stored[t].name@);
            },
        }
    } else {
        lemma_absorb_covers(keys, stored.drop_last(), t);
        assert(stored.drop_last()[t] == stored[t]);
        let i = choose|i: int| 0 <= i < before.len() && (#[trigger] before[i]).name@ == stored.drop_last()[t].name@;
        lemma_absorb_one_keeps_names(before, a, i);
        assert(absorb(keys, stored)[i].name@ == stored[t].name@);
    }
}

/// After a synchronisation the pool holds exactly the stored names: every key of
/// the pool is stored, and every stored name has a key in the pool.
pub proof fn law_sync_matches_store(keys: Seq<KeyState>, stored: Seq<ApiKey>)
    ensures
        forall|i: int| 0 <= i < synced(keys, stored).len()
            ==> stored_names(stored).contains(#[trigger] synced(keys, stored)[i].name@),
        forall|t: int| 0 <= t < stored.len() ==> exists|i: int|
            0 <= i < synced(keys, stored).len() && (#[trigger] synced(keys, stored)[i]).name@ == (#[trigger] stored[t]).name@,
{
    broadcast use vstd::seq_lib::group_filter_ensures;
    let pred = still_stored(stored);
    let all = absorb(keys, stored);
    assert forall|i: int| 0 <= i < synced(keys, stored).len()
        implies stored_names(stored).contains(#[trigger] synced(keys, stored)[i].name@) by {
        assert(pred(all.filter(pred)[i]));
    }
    assert forall|t: int| 0 <= t < stored.len() implies exists|i: int|
        0 <= i < synced(keys, stored).len() && (#[trigger] synced(keys, stored)[i]).name@ == (#[trigger] stored[t]).name@ by {
        lemma_absorb_covers(keys, stored, t);
        let i = choose|i: int| 0 <= i < all.len() && (#[trigger] all[i]).name@ == stored[t].name@;
        assert(stored_names(stored)[t] == stored[t].name@);
        assert(pred(all[i]));
        assert(all.filter(pred).contains(all[i]));
        let m = choose|m: int| 0 <= m < all.filter(pred).len() && all.filter(pred)[m] == all[i];
        assert(synced(keys, stored)[m].name@ == stored[t].name@);
    }
}


/// A pick moves the cursor to just past the key it hands out: the key comes
/// from the slot before the new cursor, every slot scanned before it holds a
/// resting key, and the cursor moves by at most one turn of the pool (unless
/// the cursor is so close to `usize::MAX` that it would wrap around).
pub proof fn law_cursor_follows_pick(keys: Seq<KeyState>, cur: usize, now: u64)
    requires
        cur + keys.len() <= usize::MAX,
        rotation_outcome(keys, cur, now).0 is Some,
    ensures ({
        let (p, next) = rotation_outcome(keys, cur, now);
        let len = keys.len() as int;
        &&& cur < next <= cur + len
        &&& p == Some((keys[(next - 1) % len].name, keys[(next - 1) % len].key))
        &&& !is_cooling(keys[(next - 1) % len], now)
        &&& forall|m: int| cur <= m < next - 1 ==> is_cooling(#[trigger] keys[m % len], now)
    }),
{
    if keys.len() == 0 {
        assert(first_free(keys, cur, now, 0) is None);
    } else {
        let len = keys.len();
        lemma_first_free_from(keys, cur, now, 0);
        let j = first_free(keys, cur, now, 0)->0;
        lemma_probe_no_wrap(cur, j);
        lemma_probe_no_wrap(cur, j + 1);
        assert forall|m: int| cur <= m < cur + j implies #[trigger] is_cooling(keys[m % (len as int)], now) by {
            let k = (m - cur) as nat;
            lemma_probe_no_wrap(cur, k);
            assert(slot_index(cur, k, len) == m % (len as int));
        }
    }
}


/// Two picks in a row at the same reading, in a pool where two keys are usable,
/// hand out keys from two different slots: the cursor has moved past the first.
pub proof fn law_successive_picks_differ(keys: Seq<KeyState>, cur: usize, now: u64, i1: int, i2: int)
    requires
        cur + 2 * keys.len() <= usize::MAX,
        0 <= i1 < keys.len(),
        0 <= i2 < keys.len(),
        i1 != i2,
        !is_cooling(keys[i1], now),
        !is_cooling(keys[i2], now),
    ensures ({
        let (p1, n1) = rotation_outcome(keys, cur, now);
        let (p2, n2) = rotation_outcome(keys, n1, now);
        &&& p1 is Some
        &&& p2 is Some
        &&& (n1 - 1) % (keys.len() as int) != (n2 - 1) % (keys.len() as int)
    }),
{
    let len = keys.len() as int;
    law_usable_key_is_found(keys, cur, now, i1);
    law_cursor_follows_pick(keys, cur, now);
    let n1 = rotation_outcome(keys, cur, now).1;
    law_usable_key_is_found(keys, n1, now, i1);
    law_cursor_follows_pick(keys, n1, now);
    let n2 = rotation_outcome(keys, n1, now).1;
    let a = n1 - 1;
    let b = n2 - 1;
    if a % len == b % len {
        vstd::arithmetic::div_mod::lemma_mod_equivalence(b, a, len);
        if b - a < len {
            vstd::arithmetic::div_mod::lemma_small_mod((b - a) as nat, len as nat);
        }
        assert(b - a == len);
        let i = if i1 != a % len { i1 } else { i2 };
        assert(i != a % len);
        let j = lemma_position_reached(a + 1, len, i);
        if j == len - 1 {
            vstd::arithmetic::div_mod::lemma_mod_add_multiples_vanish(a, len);
            assert(a + 1 + j == a + len);
        }
        let m = a + 1 + j;
        assert(n1 <= m < n2 - 1);
        assert(is_cooling(keys[m % len], now));
    }
}
} // verus!

