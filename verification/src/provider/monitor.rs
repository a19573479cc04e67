//! Token accounting of the usage monitor: per-provider token and request
//! counts.  The estimated cost is floating point and is kept beside these
//! counts by the application.

use vstd::prelude::*;
use vstd::string::StringExecFns;
use crate::text::str_eq;

verus! {

broadcast use vstd::string::group_string_axioms;

/// The counts of one provider.
#[derive(Debug, Clone)]
pub struct TokenUsage {
    pub provider: String,
    pub total_tokens: u64,
    pub prompt_tokens: u64,
    pub completion_tokens: u64,
    pub request_count: u64,
}

/// The abstract counts of one provider.
pub struct UsageCounts {
    pub provider: Seq<char>,
    pub total: nat,
    pub prompt: nat,
    pub completion: nat,
    pub requests: nat,
}

/// The abstract counts of a list of entries.
pub open spec fn usage_views(v: Seq<TokenUsage>) -> Seq<UsageCounts> {
    v.map_values(
        |u: TokenUsage|
            UsageCounts {
                provider: u.provider@,
                total: u.total_tokens as nat,
                prompt: u.prompt_tokens as nat,
                completion: u.completion_tokens as nat,
                requests: u.request_count as nat,
            },
    )
}

/// The position of a provider's entry, if it has one.
pub open spec fn entry_of(s: Seq<UsageCounts>, provider: Seq<char>) -> Option<int> {
    if exists|i: int| 0 <= i < s.len() && #[trigger] s[i].provider == provider {
        Some(choose|i: int| 0 <= i < s.len() && #[trigger] s[i].provider == provider)
    } else {
        None
    }
}

/// The counts after one request of `provider` with the given tokens: its
/// entry grows by them and by one request, or a new entry is added at the
/// end.
pub open spec fn recorded(s: Seq<UsageCounts>, provider: Seq<char>, prompt: nat, completion: nat) -> Seq<UsageCounts> {
    match entry_of(s, provider) {
        Some(i) => s.update(
            i,
            UsageCounts {
                provider,
                total: s[i].total + prompt + completion,
                prompt: s[i].prompt + prompt,
                completion: s[i].completion + completion,
                requests: s[i].requests + 1,
            },
        ),
        None => s.push(UsageCounts { provider, total: prompt + completion, prompt, completion, requests: 1 }),
    }
}

/// Whether recording a request keeps every count within `u64`.
pub open spec fn record_fits(s: Seq<UsageCounts>, provider: Seq<char>, prompt: nat, completion: nat) -> bool {
    &&& prompt + completion <= u64::MAX
    &&& match entry_of(s, provider) {
        Some(i) => {
            &&& s[i].total + prompt + completion <= u64::MAX
            &&& s[i].prompt + prompt <= u64::MAX
            &&& s[i].completion + completion <= u64::MAX
            &&& s[i].requests + 1 <= u64::MAX
        },
        None => true,
    }
}

/// One entry per provider, and each entry's total is its prompt plus its
/// completion tokens.
pub open spec fn usage_wf(s: Seq<UsageCounts>) -> bool {
    &&& forall|i: int, j: int|
        0 <= i < s.len() && 0 <= j < s.len() && i != j ==> (#[trigger] s[i]).provider != (#[trigger] s[j]).provider
    &&& forall|i: int| 0 <= i < s.len() ==> #[trigger] s[i].total == s[i].prompt + s[i].completion
}

/// Recording keeps the entries well formed.
pub proof fn lemma_recorded_wf(s: Seq<UsageCounts>, provider: Seq<char>, prompt: nat, completion: nat)
    requires
        usage_wf(s),
    ensures
        usage_wf(recorded(s, provider, prompt, completion)),
{
    let r = recorded(s, provider, prompt, completion);
    match entry_of(s, provider) {
        Some(i) => {
            assert forall|a: int, b: int|
                0 <= a < r.len() && 0 <= b < r.len() && a != b implies (#[trigger] r[a]).provider != (#[trigger] r[b]).provider by {
                assert(s[a].provider == r[a].provider);
                assert(s[b].provider == r[b].provider);
            }
        },
        None => {
            assert forall|a: int, b: int|
                0 <= a < r.len() && 0 <= b < r.len() && a != b implies (#[trigger] r[a]).provider != (#[trigger] r[b]).provider by {
                if a < s.len() && b < s.len() {
                    assert(r[a] == s[a]);
                    assert(r[b] == s[b]);
                } else if a < s.len() {
                    assert(r[a] == s[a]);
                } else {
                    assert(r[b] == s[b]);
                }
            }
            assert forall|a: int| 0 <= a < r.len() implies #[trigger] r[a].total == r[a].prompt + r[a].completion by {
                if a < s.len() {
                    assert(r[a] == s[a]);
                }
            }
        },
    }
}

/// The per-provider usage counts, in order of first use.
pub struct UsageLedger {
    entries: Vec<TokenUsage>,
}

impl View for UsageLedger {
    type V = Seq<UsageCounts>;

    closed spec fn view(&self) -> Seq<UsageCounts> {
        usage_views(self.entries@)
    }
}

impl UsageLedger {
    pub fn new() -> (l: Self)
        ensures
            l@ == Seq::<UsageCounts>::empty(),
            usage_wf(l@),
    {
        let l = UsageLedger { entries: Vec::new() };
        assert(l@ =~= Seq::<UsageCounts>::empty());
        l
    }

    /// Counts one request of `provider`; returns the position of its entry.
    pub fn record(&mut self, provider: &str, prompt_tokens: u64, completion_tokens: u64) -> (i: usize)
        requires
            usage_wf(old(self)@),
            record_fits(old(self)@, provider@, prompt_tokens as nat, completion_tokens as nat),
        ensures
            usage_wf(final(self)@),
            final(self)@ == recorded(old(self)@, provider@, prompt_tokens as nat, completion_tokens as nat),
            i < final(self)@.len(),
            final(self)@[i as int].provider == provider@,
    {
        let ghost s = self@;
        let total = prompt_tokens + completion_tokens;
        let mut i: usize = 0;
        while i < self.entries.len()
            invariant
                i <= self.entries.len(),
                s == self@,
                s == old(self)@,
                s.len() == self.entries.len(),
                record_fits(s, provider@, prompt_tokens as nat, completion_tokens as nat),
                usage_wf(s),
                total == prompt_tokens + completion_tokens,
                forall|k: int| 0 <= k < i ==> #[trigger] s[k].provider != provider@,
            decreases self.entries.len() - i,
        {
            assert(s[i as int].provider == self.entries@[i as int].provider@);
            if str_eq(self.entries[i].provider.as_str(), provider) {
                proof {
                    assert(s[i as int].provider == provider@);
                    let j = choose|j: int| 0 <= j < s.len() && #[trigger] s[j].provider == provider@;
                    assert(j == i as int);
                    assert(entry_of(s, provider@) == Some(i as int));
                }
                let e = TokenUsage {
                    provider: String::from_str(provider),
                    total_tokens: self.entries[i].total_tokens + total,
                    prompt_tokens: self.entries[i].prompt_tokens + prompt_tokens,
                    completion_tokens: self.entries[i].completion_tokens + completion_tokens,
                    request_count: self.entries[i].request_count + 1,
                };
                self.entries.set(i, e);
                assert(self@ =~= recorded(s, provider@, prompt_tokens as nat, completion_tokens as nat));
                proof {
                    lemma_recorded_wf(s, provider@, prompt_tokens as nat, completion_tokens as nat);
                }
                return i;
            }
            i += 1;
        }
        assert(entry_of(s, provider@) is None);
        self.entries.push(
            TokenUsage {
                provider: String::from_str(provider),
                total_tokens: total,
                prompt_tokens,
                completion_tokens,
                request_count: 1,
            },
        );
        assert(self@ =~= recorded(s, provider@, prompt_tokens as nat, completion_tokens as nat));
        proof {
            lemma_recorded_wf(s, provider@, prompt_tokens as nat, completion_tokens as nat);
        }
        i
    }

    /// Whether counting one more request of `provider` keeps every count
    /// within `u64`.
    pub fn can_record(&self, provider: &str, prompt_tokens: u64, completion_tokens: u64) -> (b: bool)
        requires
            usage_wf(self@),
        ensures
            b == record_fits(self@, provider@, prompt_tokens as nat, completion_tokens as nat),
    {
        let ghost s = self@;
        if prompt_tokens > u64::MAX - completion_tokens {
            return false;
        }
        let total = prompt_tokens + completion_tokens;
        let mut i: usize = 0;
        while i < self.entries.len()
            invariant
                i <= self.entries.len(),
                s == self@,
                s.len() == self.entries.len(),
                usage_wf(s),
                total == prompt_tokens + completion_tokens,
                forall|k: int| 0 <= k < i ==> #[trigger] s[k].provider != provider@,
            decreases self.entries.len() - i,
        {
            assert(s[i as int].provider == self.entries@[i as int].provider@);
            if str_eq(self.entries[i].provider.as_str(), provider) {
                proof {
                    let j = choose|j: int| 0 <= j < s.len() && #[trigger] s[j].provider == provider@;
                    assert(j == i as int);
                    assert(entry_of(s, provider@) == Some(i as int));
                }
                let e = &self.entries[i];
                assert(s[i as int].total == e.total_tokens && s[i as int].prompt == e.prompt_tokens
                    && s[i as int].completion == e.completion_tokens && s[i as int].requests == e.request_count);
                let ok = e.total_tokens <= u64::MAX - total && e.prompt_tokens <= u64::MAX - prompt_tokens
                    && e.completion_tokens <= u64::MAX - completion_tokens && e.request_count < u64::MAX;
                return ok;
            }
            i += 1;
        }
        assert(entry_of(s, provider@) is None);
        true
    }

    /// A copy of the counts.
    pub fn stats(&self) -> (v: Vec<TokenUsage>)
        ensures
            usage_views(v@) == self@,
    {
        let mut v: Vec<TokenUsage> = Vec::new();
        let mut i: usize = 0;
        while i < self.entries.len()
            invariant
                i <= self.entries.len(),
                usage_views(v@) == usage_views(self.entries@).take(i as int),
            decreases self.entries.len() - i,
        {
            let e = &self.entries[i];
            let c = TokenUsage {
                provider: String::from_str(e.provider.as_str()),
                total_tokens: e.total_tokens,
                prompt_tokens: e.prompt_tokens,
                completion_tokens: e.completion_tokens,
                request_count: e.request_count,
            };
            let ghost v0 = v@;
            v.push(c);
            assert(usage_views(v@) =~= usage_views(v0).push(usage_views(self.entries@)[i as int]));
            i += 1;
            assert(usage_views(v@) =~= usage_views(self.entries@).take(i as int));
        }
        assert(usage_views(self.entries@).take(i as int) =~= usage_views(self.entries@));
        v
    }

    /// Forgets all counts.
    pub fn reset(&mut self)
        ensures
            final(self)@ == Seq::<UsageCounts>::empty(),
            usage_wf(final(self)@),
    {
        self.entries.clear();
        assert(self@ =~= Seq::<UsageCounts>::empty());
    }
}

} // verus!
