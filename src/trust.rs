use vstd::prelude::*;
use vstd::string::{StrSliceExecFns, StringExecFns};

verus! {

/// One trusted host and the fingerprint of its public key.
pub struct TrustRecord {
    pub host: String,
    pub fingerprint: String,
}

/// The map from host to fingerprint that a sequence of records describes;
/// a later record for the same host wins.
pub open spec fn records_map(recs: Seq<(Seq<char>, Seq<char>)>) -> Map<Seq<char>, Seq<char>>
    decreases recs.len(),
{
    if recs.len() == 0 {
        Map::empty()
    } else {
        records_map(recs.drop_last()).insert(recs.last().0, recs.last().1)
    }
}

/// No two records name the same host.
pub open spec fn hosts_distinct(recs: Seq<(Seq<char>, Seq<char>)>) -> bool {
    forall|i: int, j: int| 0 <= i < j < recs.len() ==> recs[i].0 != recs[j].0
}

/// True iff the store holds `fingerprint` for `host`.
pub open spec fn trusts(m: Map<Seq<char>, Seq<char>>, host: Seq<char>, fingerprint: Seq<char>) -> bool {
    m.contains_key(host) && m[host] == fingerprint
}

/// A host absent from the records is absent from their map.
proof fn lemma_absent(recs: Seq<(Seq<char>, Seq<char>)>, h: Seq<char>)
    requires
        forall|i: int| 0 <= i < recs.len() ==> recs[i].0 != h,
    ensures
        !records_map(recs).contains_key(h),
    decreases recs.len(),
{
    if recs.len() > 0 {
        lemma_absent(recs.drop_last(), h);
    }
}

/// With distinct hosts, the map gives each record's fingerprint for its host.
proof fn lemma_lookup(recs: Seq<(Seq<char>, Seq<char>)>, i: int)
    requires
        hosts_distinct(recs),
        0 <= i < recs.len(),
    ensures
        records_map(recs).contains_key(recs[i].0),
        records_map(recs)[recs[i].0] == recs[i].1,
    decreases recs.len(),
{
    if i < recs.len() - 1 {
        lemma_lookup(recs.drop_last(), i);
    }
}

/// With distinct hosts, replacing the fingerprint of record `i` updates the
/// map at that host alone.
proof fn lemma_replace(recs: Seq<(Seq<char>, Seq<char>)>, i: int, f: Seq<char>)
    requires
        hosts_distinct(recs),
        0 <= i < recs.len(),
    ensures
        records_map(recs.update(i, (recs[i].0, f))) == records_map(recs).insert(recs[i].0, f),
    decreases recs.len(),
{
    let n = recs.update(i, (recs[i].0, f));
    if i == recs.len() - 1 {
        assert(n.drop_last() == recs.drop_last());
        assert forall|j: int| 0 <= j < recs.len() - 1 implies recs.drop_last()[j].0 != recs[i].0 by {}
        lemma_absent(recs.drop_last(), recs[i].0);
        assert(records_map(n) =~= records_map(recs).insert(recs[i].0, f));
    } else {
        assert(n.drop_last() == recs.drop_last().update(i, (recs[i].0, f)));
        lemma_replace(recs.drop_last(), i, f);
        assert(records_map(n) =~= records_map(recs).insert(recs[i].0, f));
    }
}

/// The text that `base64::encode` gives for these bytes.
pub uninterp spec fn base64_of(bytes: Seq<u8>) -> Seq<char>;

/// The text with leading and trailing white space removed, as `str::trim` gives it.
pub uninterp spec fn trimmed_of(s: Seq<char>) -> Seq<char>;

/// The text in lower case, as `str::to_lowercase` gives it.
pub uninterp spec fn lower_of(s: Seq<char>) -> Seq<char>;

/// The JSON string literal (quoted and escaped) that `serde_json` writes for the text.
pub uninterp spec fn json_quoted(s: Seq<char>) -> Seq<char>;

/// Relies on `base64::encode` (standard alphabet, padded): four characters
/// for each started group of three bytes.
#[verifier::external_body]
fn encode_base64(bytes: &Vec<u8>) -> (r: String)
    requires
        bytes@.len() <= usize::MAX / 2,
    ensures
        r@ == base64_of(bytes@),
        r@.len() == 4 * ((bytes@.len() + 2) / 3),
{
    base64::encode(bytes)
}

/// Relies on `str::trim`.
#[verifier::external_body]
fn trim(s: &str) -> (r: &str)
    ensures
        r@ == trimmed_of(s@),
{
    s.trim()
}

/// Relies on `str::to_lowercase`.
#[verifier::external_body]
fn lowercase(s: &str) -> (r: String)
    ensures
        r@ == lower_of(s@),
{
    s.to_lowercase()
}

/// Relies on the `Display` of `serde_json::Value` for a string value, which
/// writes it as one quoted and escaped JSON string.
#[verifier::external_body]
fn quote_json(s: &String) -> (r: String)
    ensures
        r@ == json_quoted(s@),
{
    serde_json::Value::String(s.clone()).to_string()
}

/// How a host that the store does not know is treated.
#[derive(Clone, Copy, Debug, PartialEq, Eq, Structural)]
pub enum TrustPolicy {
    /// Ask the operator, and trust the host only on an explicit "y".
    Interactive,
    /// Trust it at once (used to seed the store).
    AutoTrust,
    /// Never trust it.
    Strict,
}

/// What to do with a host key offered by a remote.
#[derive(Clone, Copy, Debug, PartialEq, Eq, Structural)]
pub enum HostCheck {
    /// The store holds this very fingerprint for the host: allow.
    Known,
    /// The host is unknown and the policy trusts it: record it and allow.
    Approve,
    /// The host is unknown and the operator decides.
    Prompt,
    /// Deny: the host is unknown under the strict policy, or the store holds
    /// another fingerprint for it.
    Reject,
}

/// The decision for `host` offering `fingerprint` to a store with contents `m`.
pub open spec fn assess(m: Map<Seq<char>, Seq<char>>, policy: TrustPolicy, host: Seq<char>, fingerprint: Seq<char>) -> HostCheck {
    if trusts(m, host, fingerprint) {
        HostCheck::Known
    } else if m.contains_key(host) {
        HostCheck::Reject
    } else {
        match policy {
            TrustPolicy::Interactive => HostCheck::Prompt,
            TrustPolicy::AutoTrust => HostCheck::Approve,
            TrustPolicy::Strict => HostCheck::Reject,
        }
    }
}

/// An operator's answer is a yes iff, trimmed and in lower case, it is "y".
pub open spec fn affirmative(answer: Seq<char>) -> bool {
    lower_of(trimmed_of(answer)) == seq!['y']
}

/// True iff the answer, already trimmed and in lower case, is "y".
pub fn is_yes(folded: &str) -> (r: bool)
    ensures
        r == (folded@ == seq!['y']),
{
    if folded.unicode_len() != 1 {
        return false;
    }
    let c = folded.get_char(0);
    assert(c == 'y' ==> folded@ =~= seq!['y']);
    c == 'y'
}

/// True iff the operator's answer accepts the host.
pub fn is_affirmative(answer: &str) -> (r: bool)
    ensures
        r == affirmative(answer@),
{
    let folded = lowercase(trim(answer));
    is_yes(folded.as_str())
}

/// A host key offered during a connection, with the decision taken on it.
pub struct HostOffer {
    pub fingerprint: String,
    pub check: HostCheck,
}

/// The text of one entry of the stored JSON object.
pub open spec fn entry_json(r: (Seq<char>, Seq<char>)) -> Seq<char> {
    json_quoted(r.0) + ":"@ + json_quoted(r.1)
}

/// The entries of the stored JSON object, separated by commas.
pub open spec fn entries_json(recs: Seq<(Seq<char>, Seq<char>)>) -> Seq<char>
    decreases recs.len(),
{
    if recs.len() == 0 {
        Seq::empty()
    } else if recs.len() == 1 {
        entry_json(recs[0])
    } else {
        entries_json(recs.drop_last()) + ","@ + entry_json(recs.last())
    }
}


/// The entries that `serialize` writes describe the store: one per host,
/// each with its fingerprint.
pub proof fn lemma_entries_describe_store(kh: &KnownHosts)
    requires
        kh.wf(),
    ensures
        records_map(kh.entries()) == kh.view(),
        hosts_distinct(kh.entries()),
{
}

/// Once a host has been approved with a fingerprint, the store trusts the host
/// with that fingerprint and with no other.
pub proof fn lemma_approved_host_trusted(
    m: Map<Seq<char>, Seq<char>>,
    host: Seq<char>,
    fingerprint: Seq<char>,
    other: Seq<char>,
)
    requires
        other != fingerprint,
    ensures
        trusts(m.insert(host, fingerprint), host, fingerprint),
        !trusts(m.insert(host, fingerprint), host, other),
{
}

/// Under the strict policy, a host that the store does not know is rejected,
/// whatever fingerprint it offers.
pub proof fn lemma_strict_rejects_unknown(m: Map<Seq<char>, Seq<char>>, host: Seq<char>, fingerprint: Seq<char>)
    requires
        !m.contains_key(host),
    ensures
        assess(m, TrustPolicy::Strict, host, fingerprint) == HostCheck::Reject,
{
}

/// The set of trusted hosts, one fingerprint per host.
pub struct KnownHosts {
    records: Vec<TrustRecord>,
}

impl KnownHosts {
    pub closed spec fn records_view(&self) -> Seq<(Seq<char>, Seq<char>)> {
        self.records@.map_values(|r: TrustRecord| (r.host@, r.fingerprint@))
    }

    /// The store as a map from host to fingerprint.
    pub open spec fn view(&self) -> Map<Seq<char>, Seq<char>> {
        records_map(self.records_view())
    }

    pub open spec fn wf(&self) -> bool {
        hosts_distinct(self.records_view())
    }

    /// An empty store.
    pub fn new() -> (r: KnownHosts)
        ensures
            r.wf(),
            r.view() == Map::<Seq<char>, Seq<char>>::empty(),
    {
        KnownHosts { records: Vec::new() }
    }

    /// Index of the record for `host`, if there is one.
    fn find(&self, host: &String) -> (r: Option<usize>)
        requires
            self.wf(),
        ensures
            match r {
                Some(i) => i < self.records@.len() && self.records_view()[i as int].0 == host@
                    && self.view().contains_key(host@),
                None => !self.view().contains_key(host@),
            },
    {
        let mut i: usize = 0;
        while i < self.records.len()
            invariant
                self.wf(),
                i <= self.records@.len(),
                forall|j: int| 0 <= j < i ==> self.records_view()[j].0 != host@,
            decreases self.records@.len() - i,
        {
            if self.records[i].host == *host {
                proof {
                    lemma_lookup(self.records_view(), i as int);
                }
                return Some(i);
            }
            i = i + 1;
        }
        proof {
            lemma_absent(self.records_view(), host@);
        }
        None
    }

    /// True iff the store holds exactly `key` for `host`.
    pub fn check(&self, host: &String, key: &String) -> (r: bool)
        requires
            self.wf(),
        ensures
            r == trusts(self.view(), host@, key@),
    {
        match self.find(host) {
            Some(i) => {
                proof {
                    lemma_lookup(self.records_view(), i as int);
                }
                self.records[i].fingerprint == *key
            },
            None => false,
        }
    }

    /// Records `key` as the fingerprint of `host`, replacing any earlier one.
    pub fn push(&mut self, host: String, key: String)
        requires
            old(self).wf(),
        ensures
            final(self).wf(),
            final(self).view() == old(self).view().insert(host@, key@),
    {
        match self.find(&host) {
            Some(i) => {
                proof {
                    lemma_replace(self.records_view(), i as int, key@);
                }
                let ghost before = self.records_view();
                self.records.set(i, TrustRecord { host, fingerprint: key });
                assert(self.records_view() =~= before.update(i as int, (before[i as int].0, key@)));
                assert forall|a: int, b: int| 0 <= a < b < self.records_view().len() implies
                    self.records_view()[a].0 != self.records_view()[b].0 by {
                    assert(self.records_view()[a].0 == before[a].0);
                    assert(self.records_view()[b].0 == before[b].0);
                }
            },
            None => {
                let ghost before = self.records_view();
                let ghost h = host@;
                assert forall|j: int| 0 <= j < before.len() implies before[j].0 != h by {
                    lemma_lookup(before, j);
                }
                self.records.push(TrustRecord { host, fingerprint: key });
                assert(self.records_view().drop_last() =~= before);
                assert forall|a: int, b: int| 0 <= a < b < self.records_view().len() implies
                    self.records_view()[a].0 != self.records_view()[b].0 by {
                    assert(self.records_view()[a] == before[a]);
                    if b < before.len() {
                        assert(self.records_view()[b] == before[b]);
                    }
                }
            },
        }
    }

    /// Fingerprints the key hash that `host` offers and decides on it.
    pub fn offer(&self, policy: TrustPolicy, host: &String, key_hash: &Vec<u8>) -> (r: HostOffer)
        requires
            self.wf(),
            key_hash@.len() <= usize::MAX / 2,
        ensures
            r.fingerprint@ == base64_of(key_hash@),
            r.check == assess(self.view(), policy, host@, r.fingerprint@),
    {
        let fingerprint = encode_base64(key_hash);
        let check = if self.check(host, &fingerprint) {
            HostCheck::Known
        } else if self.find(host).is_some() {
            HostCheck::Reject
        } else {
            match policy {
                TrustPolicy::Interactive => HostCheck::Prompt,
                TrustPolicy::AutoTrust => HostCheck::Approve,
                TrustPolicy::Strict => HostCheck::Reject,
            }
        };
        HostOffer { fingerprint, check }
    }

    /// Carries out the decision of `offer` for `host`: returns whether the
    /// connection is allowed, and records the host when it is newly trusted.
    /// `answer` is the operator's reply, consulted only when the decision is
    /// to ask.
    pub fn conclude(&mut self, host: String, offer: HostOffer, answer: Option<&str>) -> (allowed: bool)
        requires
            old(self).wf(),
        ensures
            final(self).wf(),
            allowed == match offer.check {
                HostCheck::Known => true,
                HostCheck::Approve => true,
                HostCheck::Prompt => answer is Some && affirmative(answer->0@),
                HostCheck::Reject => false,
            },
            final(self).view() == if allowed && offer.check != HostCheck::Known {
                old(self).view().insert(host@, offer.fingerprint@)
            } else {
                old(self).view()
            },
    {
        let record = match offer.check {
            HostCheck::Known => false,
            HostCheck::Approve => true,
            HostCheck::Prompt => match answer {
                Some(a) => is_affirmative(a),
                None => false,
            },
            HostCheck::Reject => false,
        };
        if record {
            self.push(host, offer.fingerprint);
        }
        record || offer.check == HostCheck::Known
    }

    /// The records in the order in which hosts were first trusted.
    pub closed spec fn entries(&self) -> Seq<(Seq<char>, Seq<char>)> {
        self.records_view()
    }

    /// The store as the JSON text of its file:
    /// an object whose "hosts" member maps each host to its fingerprint.
    pub fn serialize(&self) -> (r: String)
        ensures
            r@ == "{\"hosts\":{"@ + entries_json(self.entries()) + "}}"@,
    {
        let mut body = String::new();
        let mut i: usize = 0;
        while i < self.records.len()
            invariant
                i <= self.records@.len(),
                body@ == entries_json(self.records_view().take(i as int)),
            decreases self.records@.len() - i,
        {
            let ghost prev = self.records_view().take(i as int);
            if i > 0 {
                body.append(",");
            }
            let k = quote_json(&self.records[i].host);
            let v = quote_json(&self.records[i].fingerprint);
            body.append(k.as_str());
            body.append(":");
            body.append(v.as_str());
            assert(self.records_view().take(i + 1).drop_last() =~= prev);
            i = i + 1;
        }
        assert(self.records_view().take(i as int) =~= self.records_view());
        let mut out = String::from_str("{\"hosts\":{");
        out.append(body.as_str());
        out.append("}}");
        out
    }
}

} // verus!
