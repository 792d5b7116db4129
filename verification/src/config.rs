use vstd::prelude::*;
use crate::text::str_eq;

verus! {

/// A named API key, optionally scoped to one provider. A key without a
/// provider predates provider scoping and counts for every provider.
#[derive(Debug)]
pub struct ApiKey {
    pub name: String,
    pub key: String,
    pub provider: Option<String>,
}

impl Clone for ApiKey {
    fn clone(&self) -> (r: Self)
        ensures
            r == *self,
    {
        ApiKey { name: self.name.clone(), key: self.key.clone(), provider: self.provider.clone() }
    }
}

/// The persisted configuration. `models` and `embeddings` map a provider name
/// to that provider's fallback chat and embedding model; `model` and
/// `embedding` are the global fallbacks of configurations that predate
/// provider scoping.
#[derive(Debug)]
pub struct Config {
    pub provider: String,
    pub model: Option<String>,
    pub embedding: Option<String>,
    pub models: Vec<(String, String)>,
    pub embeddings: Vec<(String, String)>,
    pub keys: Vec<ApiKey>,
}

/// Errors of the configuration store.
#[derive(PartialEq, Eq, Structural, Debug, Clone, Copy)]
pub enum StoreError {
    /// The setting named is none of `provider`, `model` and `embedding`.
    UnknownKey,
}

/// Position of the entry for `k`, from index `i` on.
pub open spec fn entry_from(pairs: Seq<(String, String)>, k: Seq<char>, i: nat) -> Option<int>
    decreases pairs.len() - i,
{
    if i >= pairs.len() {
        None
    } else if pairs[i as int].0@ == k {
        Some(i as int)
    } else {
        entry_from(pairs, k, i + 1)
    }
}

/// Position of the entry for `k`.
pub open spec fn entry_index(pairs: Seq<(String, String)>, k: Seq<char>) -> Option<int> {
    entry_from(pairs, k, 0)
}

/// The value stored for `k`.
pub open spec fn lookup(pairs: Seq<(String, String)>, k: Seq<char>) -> Option<String> {
    match entry_index(pairs, k) {
        Some(i) => Some(pairs[i].1),
        None => None,
    }
}

/// No key occurs twice.
pub open spec fn unique_keys(pairs: Seq<(String, String)>) -> bool {
    forall|i: int, j: int| 0 <= i < j < pairs.len() ==> (#[trigger] pairs[i]).0@ != (#[trigger] pairs[j]).0@
}

/// `pairs` with `k` bound to `v`: an existing entry takes the new value, else
/// the entry is appended.
pub open spec fn put(pairs: Seq<(String, String)>, k: String, v: String) -> Seq<(String, String)> {
    match entry_index(pairs, k@) {
        Some(i) => pairs.update(i, (pairs[i].0, v)),
        None => pairs.push((k, v)),
    }
}

/// `pairs` with `k` bound to `v` unless `k` is already bound.
pub open spec fn put_absent(pairs: Seq<(String, String)>, k: String, v: String) -> Seq<(String, String)> {
    match entry_index(pairs, k@) {
        Some(_) => pairs,
        None => pairs.push((k, v)),
    }
}

/// A provider-scoped model setting: the provider's own entry, else the legacy
/// global value as long as no provider has an entry yet.
pub open spec fn scoped(pairs: Seq<(String, String)>, provider: Seq<char>, legacy: Option<String>) -> Option<String> {
    match lookup(pairs, provider) {
        Some(v) => Some(v),
        None => if pairs.len() == 0 { legacy } else { None },
    }
}

/// The value of a named setting.
pub open spec fn config_get(c: Config, key: Seq<char>) -> Result<Option<String>, StoreError> {
    if key == "provider"@ {
        Ok(Some(c.provider))
    } else if key == "model"@ {
        Ok(scoped(c.models@, c.provider@, c.model))
    } else if key == "embedding"@ {
        Ok(scoped(c.embeddings@, c.provider@, c.embedding))
    } else {
        Err(StoreError::UnknownKey)
    }
}

/// A key without a provider, assigned to `provider`.
pub open spec fn claim(k: ApiKey, provider: String) -> ApiKey {
    match k.provider {
        Some(_) => k,
        None => ApiKey { name: k.name, key: k.key, provider: Some(provider) },
    }
}

/// `after` is `before` switched to provider `value`: the legacy global models
/// and the unscoped keys move to the provider that was active until now.
pub open spec fn switched(before: Config, after: Config, value: String) -> bool {
    let previous = before.provider;
    &&& after.provider == value
    &&& after.model is None
    &&& after.embedding is None
    &&& after.models@ == match before.model {
        Some(m) => put_absent(before.models@, previous, m),
        None => before.models@,
    }
    &&& after.embeddings@ == match before.embedding {
        Some(e) => put_absent(before.embeddings@, previous, e),
        None => before.embeddings@,
    }
    &&& after.keys@ == before.keys@.map_values(|k: ApiKey| claim(k, previous))
}

/// `after` is `before` with the setting `key` set to `value`.
pub open spec fn config_set(before: Config, after: Config, key: Seq<char>, value: String) -> bool {
    if key == "provider"@ {
        switched(before, after, value)
    } else if key == "model"@ {
        &&& after.models@ == put(before.models@, before.provider, value)
        &&& after.provider == before.provider && after.model == before.model
        &&& after.embedding == before.embedding && after.embeddings@ == before.embeddings@
        &&& after.keys@ == before.keys@
    } else if key == "embedding"@ {
        &&& after.embeddings@ == put(before.embeddings@, before.provider, value)
        &&& after.provider == before.provider && after.model == before.model
        &&& after.embedding == before.embedding && after.models@ == before.models@
        &&& after.keys@ == before.keys@
    } else {
        after == before
    }
}

/// Keys visible to `provider`: its own and the unscoped ones.
pub open spec fn visible_to(k: ApiKey, provider: Seq<char>) -> bool {
    match k.provider {
        Some(p) => p@ == provider,
        None => true,
    }
}

/// The predicate "visible to `provider`".
pub open spec fn visible(provider: Seq<char>) -> spec_fn(ApiKey) -> bool {
    |k: ApiKey| visible_to(k, provider)
}

/// The predicate "survives deleting the key `name` of `provider`".
pub open spec fn spared(provider: Seq<char>, name: Seq<char>) -> spec_fn(ApiKey) -> bool {
    |k: ApiKey| !(k.name@ == name && visible_to(k, provider))
}

/// The predicate "survives deleting all keys of `provider`".
pub open spec fn foreign(provider: Seq<char>) -> spec_fn(ApiKey) -> bool {
    |k: ApiKey| !visible_to(k, provider)
}

/// Assigns unscoped keys to `provider`.
pub open spec fn claimed_by(provider: String) -> spec_fn(ApiKey) -> ApiKey {
    |k: ApiKey| claim(k, provider)
}

fn entry_position(pairs: &Vec<(String, String)>, k: &str) -> (r: Option<usize>)
    ensures
        r matches Some(i) ==> i < pairs@.len() && entry_index(pairs@, k@) == Some(i as int),
        r is None ==> entry_index(pairs@, k@) is None,
{
    let mut i: usize = 0;
    while i < pairs.len()
        invariant
            i <= pairs@.len(),
            entry_index(pairs@, k@) == entry_from(pairs@, k@, i as nat),
        decreases pairs@.len() - i,
    {
        if str_eq(pairs[i].0.as_str(), k) {
            return Some(i);
        }
        i = i + 1;
    }
    None
}

fn lookup_value(pairs: &Vec<(String, String)>, k: &str) -> (r: Option<String>)
    ensures
        r == lookup(pairs@, k@),
{
    match entry_position(pairs, k) {
        Some(i) => Some(pairs[i].1.clone()),
        None => None,
    }
}

fn put_value(pairs: &mut Vec<(String, String)>, k: String, v: String)
    ensures
        final(pairs)@ == put(old(pairs)@, k, v),
{
    match entry_position(pairs, k.as_str()) {
        Some(i) => {
            let existing = pairs[i].0.clone();
            pairs.set(i, (existing, v));
        },
        None => {
            pairs.push((k, v));
        },
    }
}

fn put_value_absent(pairs: &mut Vec<(String, String)>, k: String, v: String)
    ensures
        final(pairs)@ == put_absent(old(pairs)@, k, v),
{
    match entry_position(pairs, k.as_str()) {
        Some(_) => {},
        None => {
            pairs.push((k, v));
        },
    }
}

fn scoped_value(pairs: &Vec<(String, String)>, provider: &str, legacy: &Option<String>) -> (r: Option<String>)
    ensures
        r == scoped(pairs@, provider@, *legacy),
{
    match lookup_value(pairs, provider) {
        Some(v) => Some(v),
        None => if pairs.len() == 0 { legacy.clone() } else { None },
    }
}

impl Default for Config {
    /// A new installation: the keyless local Ollama provider, nothing else set.
    fn default() -> (c: Self)
        ensures
            c.provider@ == "ollama"@,
            c.model is None,
            c.embedding is None,
            c.models@.len() == 0,
            c.embeddings@.len() == 0,
            c.keys@.len() == 0,
    {
        Config {
            provider: String::from_str("ollama"),
            model: None,
            embedding: None,
            models: Vec::new(),
            embeddings: Vec::new(),
            keys: Vec::new(),
        }
    }
}

impl Config {
    /// No provider has two model entries or two embedding entries.
    pub open spec fn well_formed(&self) -> bool {
        unique_keys(self.models@) && unique_keys(self.embeddings@)
    }

    /// Reads the setting `key`: `provider`, or the active provider's `model` or
    /// `embedding`.
    pub fn get(&self, key: &str) -> (r: Result<Option<String>, StoreError>)
        ensures
            r == config_get(*self, key@),
    {
        if str_eq(key, "provider") {
            Ok(Some(self.provider.clone()))
        } else if str_eq(key, "model") {
            Ok(scoped_value(&self.models, self.provider.as_str(), &self.model))
        } else if str_eq(key, "embedding") {
            Ok(scoped_value(&self.embeddings, self.provider.as_str(), &self.embedding))
        } else {
            Err(StoreError::UnknownKey)
        }
    }

    /// Writes the setting `key`. Switching the provider first hands the legacy
    /// global models and the unscoped keys to the provider that was active.
    pub fn set(&mut self, key: &str, value: String) -> (r: Result<(), StoreError>)
        ensures
            config_set(*old(self), *final(self), key@, value),
            r is Ok <==> (key@ == "provider"@ || key@ == "model"@ || key@ == "embedding"@),
    {
        if str_eq(key, "provider") {
            let previous = self.provider.clone();
            match self.model.take() {
                Some(m) => put_value_absent(&mut self.models, previous.clone(), m),
                None => {},
            }
            match self.embedding.take() {
                Some(e) => put_value_absent(&mut self.embeddings, previous.clone(), e),
                None => {},
            }
            let mut claimed: Vec<ApiKey> = Vec::new();
            let mut i: usize = 0;
            while i < self.keys.len()
                invariant
                    i <= self.keys@.len(),
                    self.keys@ == old(self).keys@,
                    previous == old(self).provider,
                    claimed@ == self.keys@.take(i as int).map_values(claimed_by(previous)),
                decreases self.keys@.len() - i,
            {
                let k = &self.keys[i];
                let provider = match &k.provider {
                    Some(p) => Some(p.clone()),
                    None => Some(previous.clone()),
                };
                claimed.push(ApiKey { name: k.name.clone(), key: k.key.clone(), provider });
                assert(self.keys@.take(i + 1).map_values(claimed_by(previous))
                    =~= self.keys@.take(i as int).map_values(claimed_by(previous)).push(claim(self.keys@[i as int], previous)));
                i = i + 1;
            }
            assert(self.keys@.take(self.keys@.len() as int) =~= self.keys@);
            self.keys = claimed;
            self.provider = value;
            Ok(())
        } else if str_eq(key, "model") {
            let provider = self.provider.clone();
            put_value(&mut self.models, provider, value);
            Ok(())
        } else if str_eq(key, "embedding") {
            let provider = self.provider.clone();
            put_value(&mut self.embeddings, provider, value);
            Ok(())
        } else {
            Err(StoreError::UnknownKey)
        }
    }

    /// The keys visible to `provider`, in stored order.
    pub fn provider_keys(&self, provider: &str) -> (r: Vec<ApiKey>)
        ensures
            r@ == self.keys@.filter(visible(provider@)),
    {
        select_keys(&self.keys, provider, "", 0)
    }

    /// Stores a new key for `provider`.
    pub fn add_key(&mut self, provider: String, name: String, api_key: String)
        ensures
            final(self).keys@ == old(self).keys@.push(ApiKey { name, key: api_key, provider: Some(provider) }),
            final(self).provider == old(self).provider,
            final(self).model == old(self).model,
            final(self).embedding == old(self).embedding,
            final(self).models@ == old(self).models@,
            final(self).embeddings@ == old(self).embeddings@,
    {
        self.keys.push(ApiKey { name, key: api_key, provider: Some(provider) });
    }

    /// Deletes the keys called `name` that are visible to `provider`.
    pub fn delete_key(&mut self, provider: &str, name: &str)
        ensures
            final(self).keys@ == old(self).keys@.filter(spared(provider@, name@)),
            final(self).provider == old(self).provider,
            final(self).model == old(self).model,
            final(self).embedding == old(self).embedding,
            final(self).models@ == old(self).models@,
            final(self).embeddings@ == old(self).embeddings@,
    {
        let kept = select_keys(&self.keys, provider, name, 1);
        self.keys = kept;
    }

    /// Deletes every key visible to `provider`.
    pub fn delete_all_keys(&mut self, provider: &str)
        ensures
            final(self).keys@ == old(self).keys@.filter(foreign(provider@)),
            final(self).provider == old(self).provider,
            final(self).model == old(self).model,
            final(self).embedding == old(self).embedding,
            final(self).models@ == old(self).models@,
            final(self).embeddings@ == old(self).embeddings@,
    {
        let kept = select_keys(&self.keys, provider, "", 2);
        self.keys = kept;
    }
}

/// The key selection of `mode`: 0 selects the keys visible to `provider`, 1 those
/// spared by deleting `name` of `provider`, 2 those of other providers.
spec fn selection(mode: u8, provider: Seq<char>, name: Seq<char>) -> spec_fn(ApiKey) -> bool {
    if mode == 0 {
        visible(provider)
    } else if mode == 1 {
        spared(provider, name)
    } else {
        foreign(provider)
    }
}

fn select_keys(keys: &Vec<ApiKey>, provider: &str, name: &str, mode: u8) -> (r: Vec<ApiKey>)
    requires
        mode <= 2,
    ensures
        r@ == keys@.filter(selection(mode, provider@, name@)),
{
    let ghost pred = selection(mode, provider@, name@);
    let mut out: Vec<ApiKey> = Vec::new();
    let mut i: usize = 0;
    while i < keys.len()
        invariant
            i <= keys@.len(),
            mode <= 2,
            pred == selection(mode, provider@, name@),
            out@ == keys@.take(i as int).filter(pred),
        decreases keys@.len() - i,
    {
        let k = &keys[i];
        let is_visible = match &k.provider {
            Some(p) => str_eq(p.as_str(), provider),
            None => true,
        };
        let keep = if mode == 0 {
            is_visible
        } else if mode == 1 {
            !(str_eq(k.name.as_str(), name) && is_visible)
        } else {
            !is_visible
        };
        proof {
            reveal(Seq::filter);
            let t = keys@.take(i + 1);
            assert(t.drop_last() =~= keys@.take(i as int));
            assert(t.last() == keys@[i as int]);
            assert(keep == pred(keys@[i as int]));
        }
        if keep {
            out.push(k.clone());
        }
        i = i + 1;
    }
    assert(keys@.take(keys@.len() as int) =~= keys@);
    out
}

} // verus!

verus! {

proof fn lemma_entry_from(pairs: Seq<(String, String)>, k: Seq<char>, i: nat)
    ensures
        entry_from(pairs, k, i) matches Some(j) ==> i <= j < pairs.len() && pairs[j].0@ == k
            && forall|m: int| i <= m < j ==> (#[trigger] pairs[m]).0@ != k,
        entry_from(pairs, k, i) is None ==> forall|m: int| i <= m < pairs.len() ==> (#[trigger] pairs[m]).0@ != k,
    decreases pairs.len() - i,
{
    if i < pairs.len() {
        lemma_entry_from(pairs, k, i + 1);
    }
}

proof fn lemma_entry_first(pairs: Seq<(String, String)>, k: Seq<char>, j: int, i: nat)
    requires
        i <= j < pairs.len(),
        pairs[j].0@ == k,
        forall|m: int| i <= m < j ==> (#[trigger] pairs[m]).0@ != k,
    ensures
        entry_from(pairs, k, i) == Some(j),
    decreases j - i,
{
    if i < j {
        lemma_entry_first(pairs, k, j, i + 1);
    }
}

proof fn lemma_lookup_put(pairs: Seq<(String, String)>, k: String, v: String)
    ensures
        lookup(put(pairs, k, v), k@) == Some(v),
{
    lemma_entry_from(pairs, k@, 0);
    let after = put(pairs, k, v);
    match entry_index(pairs, k@) {
        Some(j) => {
            lemma_entry_first(after, k@, j, 0);
        },
        None => {
            lemma_entry_first(after, k@, pairs.len() as int, 0);
        },
    }
}

proof fn lemma_lookup_put_absent(pairs: Seq<(String, String)>, k: String, v: String)
    ensures
        lookup(pairs, k@) is None ==> lookup(put_absent(pairs, k, v), k@) == Some(v),
        lookup(pairs, k@) is Some ==> put_absent(pairs, k, v) == pairs,
{
    lemma_entry_from(pairs, k@, 0);
    if entry_index(pairs, k@) is None {
        lemma_entry_first(put_absent(pairs, k, v), k@, pairs.len() as int, 0);
    }
}

proof fn lemma_put_unique(pairs: Seq<(String, String)>, k: String, v: String)
    requires
        unique_keys(pairs),
    ensures
        unique_keys(put(pairs, k, v)),
        unique_keys(put_absent(pairs, k, v)),
{
    lemma_entry_from(pairs, k@, 0);
}

/// A setting written is read back: after setting `model` (or `embedding`) the
/// active provider's model (or embedding model) is the value written, and after
/// setting `provider` the active provider is the value written.
pub proof fn law_read_after_write(before: Config, after: Config, key: Seq<char>, value: String)
    requires
        config_set(before, after, key, value),
        key == "provider"@ || key == "model"@ || key == "embedding"@,
    ensures
        config_get(after, key) == Ok::<Option<String>, StoreError>(Some(value)),
{
    reveal_strlit("provider");
    reveal_strlit("model");
    reveal_strlit("embedding");
    if key == "model"@ {
        lemma_lookup_put(before.models@, before.provider, value);
    } else if key == "embedding"@ {
        lemma_lookup_put(before.embeddings@, before.provider, value);
    }
}

/// Switching providers loses nothing: a legacy global model or embedding model
/// becomes the entry of the provider that was active (unless it had one), and
/// every unscoped key becomes a key of that provider; no key stays unscoped.
pub proof fn law_switch_migrates_legacy(before: Config, after: Config, value: String)
    requires
        config_set(before, after, "provider"@, value),
    ensures
        after.provider == value,
        before.model matches Some(m) ==> (lookup(before.models@, before.provider@) is None
            ==> lookup(after.models@, before.provider@) == Some(m)),
        before.embedding matches Some(e) ==> (lookup(before.embeddings@, before.provider@) is None
            ==> lookup(after.embeddings@, before.provider@) == Some(e)),
        lookup(before.models@, before.provider@) is Some ==> after.models@ == before.models@,
        after.keys@.len() == before.keys@.len(),
        forall|i: int| 0 <= i < after.keys@.len() ==> {
            &&& (#[trigger] after.keys@[i]).name == before.keys@[i].name
            &&& after.keys@[i].key == before.keys@[i].key
            &&& after.keys@[i].provider == match before.keys@[i].provider {
                Some(p) => Some(p),
                None => Some(before.provider),
            }
        },
{
    if let Some(m) = before.model {
        lemma_lookup_put_absent(before.models@, before.provider, m);
    }
    if let Some(e) = before.embedding {
        lemma_lookup_put_absent(before.embeddings@, before.provider, e);
    }
}

/// Writing a setting keeps the model tables free of duplicate providers.
pub proof fn law_set_keeps_well_formed(before: Config, after: Config, key: Seq<char>, value: String)
    requires
        before.well_formed(),
        config_set(before, after, key, value),
    ensures
        after.well_formed(),
{
    reveal_strlit("provider");
    reveal_strlit("model");
    reveal_strlit("embedding");
    lemma_put_unique(before.models@, before.provider, value);
    lemma_put_unique(before.embeddings@, before.provider, value);
    if let Some(m) = before.model {
        lemma_put_unique(before.models@, before.provider, m);
    }
    if let Some(e) = before.embedding {
        lemma_put_unique(before.embeddings@, before.provider, e);
    }
}

/// A key added for a provider is the last of that provider's keys.
pub proof fn law_added_key_is_visible(keys: Seq<ApiKey>, provider: String, name: String, api_key: String)
    ensures
        ({
            let added = ApiKey { name, key: api_key, provider: Some(provider) };
            keys.push(added).filter(visible(provider@)) == keys.filter(visible(provider@)).push(added)
        }),
{
    let added = ApiKey { name, key: api_key, provider: Some(provider) };
    reveal(Seq::filter);
    assert(keys.push(added).drop_last() =~= keys);
}

/// After deleting the key `name` of `provider`, no key called `name` is visible
/// to that provider; after deleting all its keys, none is visible at all.
pub proof fn law_deleted_keys_are_gone(keys: Seq<ApiKey>, provider: Seq<char>, name: Seq<char>)
    ensures
        forall|i: int| 0 <= i < keys.filter(spared(provider, name)).len()
            ==> !((#[trigger] keys.filter(spared(provider, name))[i]).name@ == name
                && visible_to(keys.filter(spared(provider, name))[i], provider)),
        forall|i: int| 0 <= i < keys.filter(foreign(provider)).len()
            ==> !visible_to(#[trigger] keys.filter(foreign(provider))[i], provider),
{
    broadcast use vstd::seq_lib::group_filter_ensures;
    assert forall|i: int| 0 <= i < keys.filter(spared(provider, name)).len()
        implies !((#[trigger] keys.filter(spared(provider, name))[i]).name@ == name
            && visible_to(keys.filter(spared(provider, name))[i], provider)) by {
        assert(spared(provider, name)(keys.filter(spared(provider, name))[i]));
    }
    assert forall|i: int| 0 <= i < keys.filter(foreign(provider)).len()
        implies !visible_to(#[trigger] keys.filter(foreign(provider))[i], provider) by {
        assert(foreign(provider)(keys.filter(foreign(provider))[i]));
    }
}

/// The names and secrets of a list of keys, in order.
pub open spec fn key_pairs(keys: Seq<ApiKey>) -> Seq<(String, String)> {
    keys.map_values(|k: ApiKey| (k.name, k.key))
}

/// Two key lists that agree, position by position, on names, secrets and
/// visibility to `provider` show that provider the same names and secrets.
proof fn lemma_same_visible_pairs(s1: Seq<ApiKey>, s2: Seq<ApiKey>, provider: Seq<char>)
    requires
        s1.len() == s2.len(),
        forall|i: int| 0 <= i < s1.len() ==> {
            &&& (#[trigger] s1[i]).name == s2[i].name
            &&& s1[i].key == s2[i].key
            &&& visible_to(s1[i], provider) == visible_to(s2[i], provider)
        },
    ensures
        key_pairs(s1.filter(visible(provider))) == key_pairs(s2.filter(visible(provider))),
    decreases s1.len(),
{
    reveal(Seq::filter);
    if s1.len() > 0 {
        let t1 = s1.drop_last();
        let t2 = s2.drop_last();
        assert forall|i: int| 0 <= i < t1.len() implies {
            &&& (#[trigger] t1[i]).name == t2[i].name
            &&& t1[i].key == t2[i].key
            &&& visible_to(t1[i], provider) == visible_to(t2[i], provider)
        } by {
            assert(t1[i] == s1[i] && t2[i] == s2[i]);
        }
        lemma_same_visible_pairs(t1, t2, provider);
        let f1 = t1.filter(visible(provider));
        let f2 = t2.filter(visible(provider));
        let l = s1.len() - 1;
        assert(s1.last() == s1[l] && s2.last() == s2[l]);
        if visible_to(s1.last(), provider) {
            assert(key_pairs(f1.push(s1.last())) =~= key_pairs(f1).push((s1.last().name, s1.last().key)));
            assert(key_pairs(f2.push(s2.last())) =~= key_pairs(f2).push((s2.last().name, s2.last().key)));
        }
    } else {
        assert(key_pairs(s1.filter(visible(provider))) =~= key_pairs(s2.filter(visible(provider))));
    }
}

/// Switching to another provider and back restores the active provider's
/// chat and embedding models and the keys it sees: the same names and
/// secrets, in the same order. Left out: a legacy global
/// model (or embedding model) beside provider entries of which none is the
/// active provider's, which the switch hands to the active provider.
pub proof fn law_switching_back_restores(c0: Config, c1: Config, c2: Config, other: String)
    requires
        config_set(c0, c1, "provider"@, other),
        config_set(c1, c2, "provider"@, c0.provider),
        !(c0.model is Some && c0.models@.len() > 0 && lookup(c0.models@, c0.provider@) is None),
        !(c0.embedding is Some && c0.embeddings@.len() > 0 && lookup(c0.embeddings@, c0.provider@) is None),
    ensures
        config_get(c2, "model"@) == config_get(c0, "model"@),
        config_get(c2, "embedding"@) == config_get(c0, "embedding"@),
        c2.keys@.len() == c0.keys@.len(),
        forall|i: int| 0 <= i < c0.keys@.len() ==> {
            &&& (#[trigger] c2.keys@[i]).name == c0.keys@[i].name
            &&& c2.keys@[i].key == c0.keys@[i].key
            &&& visible_to(c2.keys@[i], c0.provider@) == visible_to(c0.keys@[i], c0.provider@)
        },
        key_pairs(c2.keys@.filter(visible(c0.provider@))) == key_pairs(c0.keys@.filter(visible(c0.provider@))),
{
    reveal_strlit("provider");
    reveal_strlit("model");
    reveal_strlit("embedding");
    let a = c0.provider;
    if let Some(m) = c0.model {
        lemma_lookup_put_absent(c0.models@, a, m);
    }
    if let Some(e) = c0.embedding {
        lemma_lookup_put_absent(c0.embeddings@, a, e);
    }
    assert(c2.models@ == c1.models@);
    assert(c2.embeddings@ == c1.embeddings@);
    assert forall|i: int| 0 <= i < c0.keys@.len() implies {
        &&& (#[trigger] c2.keys@[i]).name == c0.keys@[i].name
        &&& c2.keys@[i].key == c0.keys@[i].key
        &&& visible_to(c2.keys@[i], c0.provider@) == visible_to(c0.keys@[i], c0.provider@)
    } by {
        assert(c1.keys@[i] == claim(c0.keys@[i], a));
        assert(c2.keys@[i] == claim(c1.keys@[i], c1.provider));
    }
    lemma_same_visible_pairs(c2.keys@, c0.keys@, c0.provider@);
}

/// Whether a key called `name` is among `keys`.
pub fn has_key_named(keys: &Vec<ApiKey>, name: &str) -> (r: bool)
    ensures
        r == exists|i: int| 0 <= i < keys@.len() && (#[trigger] keys@[i]).name@ == name@,
{
    let mut i: usize = 0;
    while i < keys.len()
        invariant
            i <= keys@.len(),
            forall|t: int| 0 <= t < i ==> (#[trigger] keys@[t]).name@ != name@,
        decreases keys@.len() - i,
    {
        if str_eq(keys[i].name.as_str(), name) {
            return true;
        }
        i = i + 1;
    }
    false
}

} // verus!
