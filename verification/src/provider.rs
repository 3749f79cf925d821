//! LLM providers, their display names and the default model of each.
use vstd::prelude::*;
use vstd::string::*;

use crate::config::ProviderConfig;
use crate::consts::{CHATGPT_DEFAULT, CLAUDE_DEFAULT, GEMINI_DEFAULT};
use crate::text::{push_char, push_str};

verus! {

/// An LLM provider.
#[derive(Clone, Copy, PartialEq, Eq, Structural, Debug, Hash)]
pub enum Provider {
    OpenAI,
    Gemini,
    Claude,
    Gai,
}

impl Provider {
    /// The name of the provider.
    pub open spec fn spec_label(&self) -> Seq<char> {
        match self {
            Provider::OpenAI => "OpenAI"@,
            Provider::Gemini => "Gemini"@,
            Provider::Claude => "Anthropic"@,
            Provider::Gai => "Gai"@,
        }
    }

    /// The name of the provider.
    pub fn label(&self) -> (r: String)
        ensures
            r@ == self.spec_label(),
    {
        match self {
            Provider::OpenAI => String::from_str("OpenAI"),
            Provider::Gemini => String::from_str("Gemini"),
            Provider::Claude => String::from_str("Anthropic"),
            Provider::Gai => String::from_str("Gai"),
        }
    }

    /// "Provider (model)".
    pub fn name(&self, model: &str) -> (r: String)
        ensures
            r@ == self.spec_label() + " ("@ + model@ + seq![')'],
    {
        let mut s = self.label();
        push_str(&mut s, " (");
        push_str(&mut s, model);
        push_char(&mut s, ')');
        s
    }

    /// Every provider, in declaration order.
    pub open spec fn spec_all() -> Seq<Provider> {
        seq![Provider::OpenAI, Provider::Gemini, Provider::Claude, Provider::Gai]
    }

    /// Every provider, in declaration order.
    pub fn all() -> (r: Vec<Provider>)
        ensures
            r@ == Self::spec_all(),
    {
        let mut v = Vec::new();
        v.push(Provider::OpenAI);
        v.push(Provider::Gemini);
        v.push(Provider::Claude);
        v.push(Provider::Gai);
        v
    }

    /// The model a provider uses unless configured otherwise.
    pub open spec fn spec_default_model(&self) -> Seq<char> {
        match self {
            Provider::OpenAI => CHATGPT_DEFAULT@,
            Provider::Gemini => GEMINI_DEFAULT@,
            Provider::Claude => CLAUDE_DEFAULT@,
            Provider::Gai => GEMINI_DEFAULT@,
        }
    }

    /// Every provider with its default model and a budget of 5000 tokens,
    /// in declaration order.
    pub open spec fn spec_defaults() -> Seq<ProviderEntry> {
        Self::spec_all().map_values(|p: Provider| (p, (p.spec_default_model(), 5000u64)))
    }

    /// The configuration of every provider with its default model.
    pub fn create_defaults() -> (r: ProviderMap)
        ensures
            r.spec_entries() == Self::spec_defaults(),
    {
        let mut providers = ProviderMap::new();
        let all = Provider::all();
        let mut i: usize = 0;
        while i < all.len()
            invariant
                i <= all.len(),
                all@ == Self::spec_all(),
                providers.spec_entries() == Self::spec_defaults().take(i as int),
            decreases all.len() - i,
        {
            let p = all[i];
            let cfg = match p {
                Provider::OpenAI => ProviderConfig::new(CHATGPT_DEFAULT),
                Provider::Gemini => ProviderConfig::new(GEMINI_DEFAULT),
                Provider::Claude => ProviderConfig::new(CLAUDE_DEFAULT),
                Provider::Gai => ProviderConfig::new(GEMINI_DEFAULT),
            };
            proof {
                lemma_all_distinct(i as int);
                let es = providers.spec_entries();
                assert forall|k: int| 0 <= k < es.len() implies es[k].0 != p by {
                    assert(es[k].0 == Self::spec_all().take(i as int)[k]);
                }
                lemma_entry_absent(es, p, 0);
            }
            providers.insert(p, cfg);
            assert(cfg@ == (p.spec_default_model(), 5000u64));
            assert(Self::spec_defaults().take(i + 1) == Self::spec_defaults().take(i as int).push(
                (p, (p.spec_default_model(), 5000u64)),
            ));
            i = i + 1;
        }
        assert(Self::spec_defaults().take(4) == Self::spec_defaults());
        providers
    }
}

/// The first `i` providers do not include the `i`-th.
proof fn lemma_all_distinct(i: int)
    requires
        0 <= i < 4,
    ensures
        !Provider::spec_all().take(i).contains(Provider::spec_all()[i]),
{
    let all = Provider::spec_all();
    if all.take(i).contains(all[i]) {
        let j = choose|j: int| 0 <= j < all.take(i).len() && all.take(i)[j] == all[i];
        assert(all[j] == all[i]);
    }
}

/// A provider and its configuration, as values.
pub type ProviderEntry = (Provider, (Seq<char>, u64));

/// Configurations keyed by provider, each provider at most once, in the order
/// they were first set.
#[derive(Debug)]
pub struct ProviderMap {
    entries: Vec<(Provider, ProviderConfig)>,
}

/// Index of the entry for `p` at or after `i`.
pub open spec fn entry_index(es: Seq<ProviderEntry>, p: Provider, i: int) -> Option<int>
    decreases es.len() - i,
{
    if i < 0 || i >= es.len() {
        None
    } else if es[i].0 == p {
        Some(i)
    } else {
        entry_index(es, p, i + 1)
    }
}

/// The configuration of `p` among the entries, if it has one.
pub open spec fn get_entry(es: Seq<ProviderEntry>, p: Provider) -> Option<(Seq<char>, u64)> {
    match entry_index(es, p, 0) {
        Some(i) => Some(es[i].1),
        None => None,
    }
}

/// The entries with the configuration of `p` set to `c`: its entry replaced,
/// or one added at the end when it has none.
pub open spec fn put_entry(es: Seq<ProviderEntry>, p: Provider, c: (Seq<char>, u64)) -> Seq<
    ProviderEntry,
> {
    match entry_index(es, p, 0) {
        Some(i) => es.update(i, (p, c)),
        None => es.push((p, c)),
    }
}

impl ProviderMap {
    /// The entries as values, in order.
    pub closed spec fn spec_entries(&self) -> Seq<ProviderEntry> {
        self.entries@.map_values(|e: (Provider, ProviderConfig)| (e.0, e.1@))
    }

    /// No provider has two entries.
    #[verifier::type_invariant]
    spec fn keys_distinct(&self) -> bool {
        forall|i: int, j: int|
            0 <= i < j < self.entries@.len() ==> self.entries@[i].0 != self.entries@[j].0
    }

    /// The configuration of `p`, if it has one.
    pub open spec fn spec_get(&self, p: Provider) -> Option<(Seq<char>, u64)> {
        get_entry(self.spec_entries(), p)
    }

    /// No configurations.
    pub fn new() -> (r: ProviderMap)
        ensures
            r.spec_entries() == Seq::<ProviderEntry>::empty(),
    {
        ProviderMap { entries: Vec::new() }
    }

    /// Index of the entry for `p`.
    fn position(&self, p: Provider) -> (r: Option<usize>)
        ensures
            match r {
                Some(i) => entry_index(self.spec_entries(), p, 0) == Some(i as int) && i
                    < self.entries@.len(),
                None => entry_index(self.spec_entries(), p, 0) is None,
            },
    {
        let ghost es = self.spec_entries();
        let mut i: usize = 0;
        while i < self.entries.len()
            invariant
                i <= self.entries.len(),
                es == self.spec_entries(),
                entry_index(es, p, 0) == entry_index(es, p, i as int),
            decreases self.entries.len() - i,
        {
            if self.entries[i].0 == p {
                return Some(i);
            }
            i = i + 1;
        }
        None
    }

    /// Sets the configuration of `p`: replaces its entry, or adds one at the end
    /// when it has none.
    pub fn insert(&mut self, p: Provider, cfg: ProviderConfig)
        ensures
            final(self).spec_entries() == put_entry(old(self).spec_entries(), p, cfg@),
    {
        proof {
            use_type_invariant(&*self);
        }
        match self.position(p) {
            Some(i) => {
                let ghost before = self.entries@;
                proof {
                    lemma_entry_found(self.spec_entries(), p, 0);
                    assert(before[i as int].0 == p);
                }
                let mut entries = Vec::new();
                std::mem::swap(&mut entries, &mut self.entries);
                entries.set(i, (p, cfg));
                assert(entries@ == before.update(i as int, (p, cfg)));
                self.entries = entries;
                assert(self.spec_entries() == before.map_values(
                    |e: (Provider, ProviderConfig)| (e.0, e.1@),
                ).update(i as int, (p, cfg@)));
            },
            None => {
                let ghost es = self.spec_entries();
                let ghost before = self.entries@;
                proof {
                    lemma_no_entry(es, p, 0);
                    assert forall|k: int| 0 <= k < before.len() implies before[k].0 != p by {
                        assert(es[k].0 == before[k].0);
                    }
                }
                let mut entries = Vec::new();
                std::mem::swap(&mut entries, &mut self.entries);
                entries.push((p, cfg));
                self.entries = entries;
                assert(self.spec_entries() == before.map_values(
                    |e: (Provider, ProviderConfig)| (e.0, e.1@),
                ).push((p, cfg@)));
            },
        }
    }

    /// The configuration of `p`, if it has one.
    pub fn get(&self, p: Provider) -> (r: Option<&ProviderConfig>)
        ensures
            match r {
                Some(c) => self.spec_get(p) == Some(c@),
                None => self.spec_get(p) is None,
            },
    {
        match self.position(p) {
            Some(i) => Some(&self.entries[i].1),
            None => None,
        }
    }

    /// The entries, in order.
    pub fn entries(&self) -> (r: &Vec<(Provider, ProviderConfig)>)
        ensures
            r@.map_values(|e: (Provider, ProviderConfig)| (e.0, e.1@)) == self.spec_entries(),
    {
        &self.entries
    }
}

/// The index `entry_index` finds holds an entry for `p`.
proof fn lemma_entry_found(es: Seq<ProviderEntry>, p: Provider, i: int)
    requires
        0 <= i,
        entry_index(es, p, i) is Some,
    ensures
        i <= entry_index(es, p, i)->0 < es.len(),
        es[entry_index(es, p, i)->0].0 == p,
    decreases es.len() - i,
{
    if es[i].0 != p {
        lemma_entry_found(es, p, i + 1);
    }
}

/// When no entry from `i` on is for `p`, `entry_index` finds none.
proof fn lemma_entry_absent(es: Seq<ProviderEntry>, p: Provider, i: int)
    requires
        0 <= i,
        forall|k: int| i <= k < es.len() ==> es[k].0 != p,
    ensures
        entry_index(es, p, i) is None,
    decreases es.len() - i,
{
    if i < es.len() {
        lemma_entry_absent(es, p, i + 1);
    }
}

/// Without an entry for `p` from `i` on, no entry from `i` on is for `p`.
proof fn lemma_no_entry(es: Seq<ProviderEntry>, p: Provider, i: int)
    requires
        0 <= i <= es.len(),
        entry_index(es, p, i) is None,
    ensures
        forall|k: int| i <= k < es.len() ==> es[k].0 != p,
    decreases es.len() - i,
{
    if i < es.len() {
        lemma_no_entry(es, p, i + 1);
    }
}

/// Reading a provider back after setting it gives what was set; reading any
/// other provider gives what it had before.
pub proof fn lemma_get_after_put(es: Seq<ProviderEntry>, p: Provider, c: (Seq<char>, u64), q: Provider)
    ensures
        get_entry(put_entry(es, p, c), q) == if q == p {
            Some(c)
        } else {
            get_entry(es, q)
        },
{
    match entry_index(es, p, 0) {
        Some(i) => {
            lemma_entry_found(es, p, 0);
            let u = es.update(i, (p, c));
            if q == p {
                lemma_first_index(es, p, 0);
                lemma_index_at(u, p, 0, i);
            } else {
                lemma_same_keys(es, u, q, 0);
                lemma_first_index(es, q, 0);
            }
        },
        None => {
            lemma_no_entry(es, p, 0);
            let u = es.push((p, c));
            if q == p {
                lemma_index_at(u, p, 0, es.len() as int);
            } else {
                lemma_same_keys(es, u, q, 0);
                lemma_first_index(es, q, 0);
            }
        },
    }
}

/// What `entry_index` finds is an entry for `q` with none before it.
proof fn lemma_first_index(es: Seq<ProviderEntry>, q: Provider, k: int)
    requires
        0 <= k,
    ensures
        entry_index(es, q, k) matches Some(j) ==> k <= j < es.len() && es[j].0 == q && forall|
            m: int,
        | k <= m < j ==> es[m].0 != q,
    decreases es.len() - k,
{
    if k < es.len() && es[k].0 != q {
        lemma_first_index(es, q, k + 1);
    }
}

/// An entry for `q` with none before it is what `entry_index` finds.
proof fn lemma_index_at(es: Seq<ProviderEntry>, q: Provider, k: int, j: int)
    requires
        0 <= k <= j < es.len(),
        es[j].0 == q,
        forall|m: int| k <= m < j ==> es[m].0 != q,
    ensures
        entry_index(es, q, k) == Some(j),
    decreases j - k,
{
    if k < j {
        lemma_index_at(es, q, k + 1, j);
    }
}

/// Lists with the same keys, the longer one holding no more entries for `q`,
/// find `q` at the same place.
proof fn lemma_same_keys(a: Seq<ProviderEntry>, b: Seq<ProviderEntry>, q: Provider, k: int)
    requires
        0 <= k,
        a.len() <= b.len(),
        forall|m: int| 0 <= m < a.len() ==> a[m].0 == b[m].0,
        forall|m: int| a.len() <= m < b.len() ==> b[m].0 != q,
    ensures
        entry_index(a, q, k) == entry_index(b, q, k),
    decreases b.len() - k,
{
    if k < b.len() {
        lemma_same_keys(a, b, q, k + 1);
    }
}

} // verus!
