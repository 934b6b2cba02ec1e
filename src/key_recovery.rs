//! Recovery of the message store's cipher key: the ordered strategies and the
//! first-validated-candidate-wins rule, the cipher profiles a candidate is
//! tried under, the throttle on live instrumentation, and the conversation
//! rows read once a key opens the store.

use vstd::prelude::*;
use crate::hex::{encode_hex, encode_spec};
use crate::text::{decimal, decimal_string, trim, trim_str};
use crate::types::{ChatKind, ChatSummary};

verus! {

/// Milliseconds after a live-instrumentation attempt before another may start.
pub const LIVE_RETRY_COOLDOWN_MS: u64 = 30_000;

/// One cipher configuration under which a store may open.
#[derive(Debug, Clone, Copy, PartialEq, Eq)]
pub struct SqlcipherParams {
    pub compat: i32,
    pub kdf_iter: Option<i32>,
    pub page_size: Option<i32>,
}

impl SqlcipherParams {
    pub fn new(compat: i32, kdf_iter: Option<i32>, page_size: Option<i32>) -> (r: SqlcipherParams)
        ensures
            r.compat == compat,
            r.kdf_iter == kdf_iter,
            r.page_size == page_size,
    {
        SqlcipherParams { compat, kdf_iter, page_size }
    }
}

/// The profiles a candidate key is tried under, in order.
pub open spec fn profiles_spec() -> Seq<SqlcipherParams> {
    seq![
        SqlcipherParams { compat: 4, kdf_iter: Some(256000), page_size: Some(4096) },
        SqlcipherParams { compat: 4, kdf_iter: None, page_size: None },
        SqlcipherParams { compat: 4, kdf_iter: Some(64000), page_size: Some(4096) },
        SqlcipherParams { compat: 3, kdf_iter: Some(64000), page_size: Some(1024) },
    ]
}

/// The cipher profiles, in the order they are tried.
pub fn cipher_profiles() -> (r: Vec<SqlcipherParams>)
    ensures
        r@ == profiles_spec(),
{
    let r = vec![
        SqlcipherParams::new(4, Some(256000), Some(4096)),
        SqlcipherParams::new(4, None, None),
        SqlcipherParams::new(4, Some(64000), Some(4096)),
        SqlcipherParams::new(3, Some(64000), Some(1024)),
    ];
    assert(r@ =~= profiles_spec());
    r
}

/// The statements that key a connection under `p`.
pub open spec fn pragma_spec(key: Seq<u8>, p: SqlcipherParams) -> Seq<char> {
    "PRAGMA cipher_compatibility = "@ + decimal(p.compat as int) + "; PRAGMA key = \"x'"@
        + encode_spec(key) + "'\";"@ + (match p.kdf_iter {
        Some(k) => " PRAGMA kdf_iter = "@ + decimal(k as int) + ";"@,
        None => Seq::<char>::empty(),
    }) + (match p.page_size {
        Some(s) => " PRAGMA cipher_page_size = "@ + decimal(s as int) + ";"@,
        None => Seq::<char>::empty(),
    })
}

/// The statements that key a connection with `key` under `params`.
pub fn key_pragma(key: &[u8], params: &SqlcipherParams) -> (r: String)
    ensures
        r@ == pragma_spec(key@, *params),
{
    let mut out = String::from_str("PRAGMA cipher_compatibility = ");
    out.append(decimal_string(params.compat as i64).as_str());
    out.append("; PRAGMA key = \"x'");
    out.append(encode_hex(key).as_str());
    out.append("'\";");
    match params.kdf_iter {
        Some(k) => {
            out.append(" PRAGMA kdf_iter = ");
            out.append(decimal_string(k as i64).as_str());
            out.append(";");
        },
        None => {},
    }
    match params.page_size {
        Some(s) => {
            out.append(" PRAGMA cipher_page_size = ");
            out.append(decimal_string(s as i64).as_str());
            out.append(";");
        },
        None => {},
    }
    assert(out@ =~= pragma_spec(key@, *params));
    out
}

/// The throttle on live-instrumentation attempts.
#[derive(Debug, Clone, Copy, PartialEq, Eq)]
pub struct LiveAttemptGate {
    pub last_attempt_ms: Option<u64>,
}

impl LiveAttemptGate {
    pub fn new() -> (r: LiveAttemptGate)
        ensures
            r.last_attempt_ms is None,
    {
        LiveAttemptGate { last_attempt_ms: None }
    }

    /// Whether an attempt may start at `now_ms`: not within the cooldown of
    /// the last one. An allowed attempt is recorded.
    pub fn should_attempt(&mut self, now_ms: u64) -> (r: bool)
        ensures
            r == (match old(self).last_attempt_ms {
                Some(l) => !(now_ms >= l && now_ms - l < LIVE_RETRY_COOLDOWN_MS) && !(now_ms < l
                    && 0 < LIVE_RETRY_COOLDOWN_MS),
                None => true,
            }),
            r ==> final(self).last_attempt_ms == Some(now_ms),
            !r ==> *final(self) == *old(self),
    {
        match self.last_attempt_ms {
            Some(l) => {
                let elapsed = if now_ms >= l {
                    now_ms - l
                } else {
                    0
                };
                if elapsed < LIVE_RETRY_COOLDOWN_MS {
                    return false;
                }
            },
            None => {},
        }
        self.last_attempt_ms = Some(now_ms);
        true
    }
}

/// Where a candidate key comes from, in the order the sources are tried.
#[derive(Debug, Copy, Clone, PartialEq, Eq, Structural)]
pub enum KeySource {
    /// The key kept in memory from an earlier success.
    Cache,
    /// The key persisted in the secret store.
    SecretStore,
    /// A key read from the running client by instrumentation.
    LiveInstrumentation,
    /// Windows of the key-metadata blob.
    EntropyScan,
}

pub open spec fn source_at(i: int) -> KeySource {
    if i == 0 {
        KeySource::Cache
    } else if i == 1 {
        KeySource::SecretStore
    } else if i == 2 {
        KeySource::LiveInstrumentation
    } else {
        KeySource::EntropyScan
    }
}

/// What the recovery asks for next.
#[derive(Debug, Clone)]
pub enum RecoveryAction {
    /// Produce the candidates of a source (none where it has none).
    Fetch(KeySource),
    /// Try to open the store with this key under every cipher profile.
    Validate(Vec<u8>),
    /// This key opened the store.
    Found(Vec<u8>, KeySource),
    /// Every source is exhausted.
    Exhausted,
}

/// The progress of one key recovery.
pub struct KeyRecovery {
    stage: usize,
    fetched: bool,
    pending: Vec<Vec<u8>>,
    next: usize,
    found: bool,
}

pub open spec fn keys_of(v: Seq<Vec<u8>>) -> Seq<Seq<u8>> {
    v.map_values(|k: Vec<u8>| k@)
}

impl KeyRecovery {
    /// The source being tried, as its position among the four.
    pub closed spec fn stage(&self) -> nat {
        self.stage as nat
    }

    /// Whether the current source's candidates are known.
    pub closed spec fn fetched(&self) -> bool {
        self.fetched
    }

    /// The current source's candidates.
    pub closed spec fn candidates(&self) -> Seq<Seq<u8>> {
        keys_of(self.pending@)
    }

    /// How many of them failed validation.
    pub closed spec fn rejected(&self) -> nat {
        self.next as nat
    }

    /// Whether the candidate after the rejected ones validated.
    pub closed spec fn succeeded(&self) -> bool {
        self.found
    }

    pub open spec fn wf(&self) -> bool {
        &&& self.stage() <= 4
        &&& self.stage() == 4 ==> !self.fetched() && !self.succeeded()
        &&& self.fetched() ==> self.rejected() < self.candidates().len()
        &&& !self.fetched() ==> !self.succeeded()
    }

    /// A recovery about to ask the cache.
    pub fn new() -> (r: KeyRecovery)
        ensures
            r.wf(),
            r.stage() == 0,
            !r.fetched(),
            !r.succeeded(),
    {
        KeyRecovery { stage: 0, fetched: false, pending: Vec::new(), next: 0, found: false }
    }

    /// What to do next: fetch the current source, validate its next
    /// candidate, report the key that validated, or give up.
    pub fn next_action(&self) -> (r: RecoveryAction)
        requires
            self.wf(),
        ensures
            self.succeeded() ==> (r matches RecoveryAction::Found(k, s) && k@
                == self.candidates()[self.rejected() as int] && s == source_at(self.stage() as int)),
            !self.succeeded() && self.stage() >= 4 ==> r is Exhausted,
            !self.succeeded() && self.stage() < 4 && !self.fetched() ==> (r matches RecoveryAction::Fetch(s)
                && s == source_at(self.stage() as int)),
            !self.succeeded() && self.stage() < 4 && self.fetched() ==> (r matches RecoveryAction::Validate(k)
                && k@ == self.candidates()[self.rejected() as int]),
    {
        if self.found {
            return RecoveryAction::Found(self.pending[self.next].clone(), source_of(self.stage));
        }
        if self.stage >= 4 {
            return RecoveryAction::Exhausted;
        }
        if !self.fetched {
            return RecoveryAction::Fetch(source_of(self.stage));
        }
        RecoveryAction::Validate(self.pending[self.next].clone())
    }

    /// Hands over the current source's candidates. A source with none is
    /// passed over.
    pub fn supply(&mut self, candidates: Vec<Vec<u8>>)
        requires
            old(self).wf(),
            !old(self).succeeded(),
            old(self).stage() < 4,
            !old(self).fetched(),
        ensures
            final(self).wf(),
            !final(self).succeeded(),
            final(self).rejected() == 0,
            candidates@.len() > 0 ==> final(self).fetched() && final(self).stage() == old(self).stage()
                && final(self).candidates() == keys_of(candidates@),
            candidates@.len() == 0 ==> !final(self).fetched() && final(self).stage() == old(self).stage()
                + 1,
    {
        self.next = 0;
        if candidates.len() == 0 {
            self.stage = self.stage + 1;
            self.fetched = false;
        } else {
            self.pending = candidates;
            self.fetched = true;
        }
    }

    /// Reports whether the candidate being validated opened the store. A
    /// source whose candidates all failed is passed over.
    pub fn report(&mut self, valid: bool)
        requires
            old(self).wf(),
            !old(self).succeeded(),
            old(self).stage() < 4,
            old(self).fetched(),
        ensures
            final(self).wf(),
            valid ==> final(self).succeeded() && final(self).stage() == old(self).stage()
                && final(self).candidates() == old(self).candidates() && final(self).rejected()
                == old(self).rejected(),
            !valid && old(self).rejected() + 1 < old(self).candidates().len() ==> !final(self).succeeded() && final(self).fetched() && final(self).stage() == old(self).stage()
                && final(self).candidates() == old(self).candidates() && final(self).rejected()
                == old(self).rejected() + 1,
            !valid && old(self).rejected() + 1 == old(self).candidates().len() ==> !final(self).succeeded() && !final(self).fetched() && final(self).stage() == old(self).stage() + 1,
    {
        let count = self.pending.len();
        assert(self.next < count);
        if valid {
            self.found = true;
        } else if self.next + 1 < count {
            self.next = self.next + 1;
        } else {
            self.stage = self.stage + 1;
            self.fetched = false;
            self.next = 0;
        }
    }
}

fn source_of(stage: usize) -> (r: KeySource)
    ensures
        r == source_at(stage as int),
{
    if stage == 0 {
        KeySource::Cache
    } else if stage == 1 {
        KeySource::SecretStore
    } else if stage == 2 {
        KeySource::LiveInstrumentation
    } else {
        KeySource::EntropyScan
    }
}

/// Whether a key found through `source` goes to the secret store: one read
/// from the client or from the blob does; one from the cache or the store
/// itself is there already.
pub fn should_persist(source: KeySource) -> (r: bool)
    ensures
        r == (source == KeySource::LiveInstrumentation || source == KeySource::EntropyScan),
{
    match source {
        KeySource::LiveInstrumentation | KeySource::EntropyScan => true,
        _ => false,
    }
}

/// Why the store listed no conversation.
#[derive(Debug, Clone, Copy, PartialEq, Eq)]
pub enum StoreError {
    NoConversations,
}

/// The first `n` rows with a blank id, or an id seen before, left out.
pub open spec fn kept_rows(rows: Seq<(Seq<char>, Seq<char>)>, n: int) -> Seq<(Seq<char>, Seq<char>)>
    decreases n,
{
    if n <= 0 {
        seq![]
    } else {
        let k = kept_rows(rows, n - 1);
        let r = rows[n - 1];
        if trim(r.0).len() == 0 || k.map_values(|p: (Seq<char>, Seq<char>)| p.0).contains(r.0) {
            k
        } else {
            k.push(r)
        }
    }
}

pub open spec fn rows_view(rows: Seq<(String, String)>) -> Seq<(Seq<char>, Seq<char>)> {
    rows.map_values(|r: (String, String)| (r.0@, r.1@))
}

pub open spec fn summaries_of(v: Seq<ChatSummary>) -> Seq<(Seq<char>, Seq<char>)> {
    v.map_values(|c: ChatSummary| (c.chat_id@, c.chat_title@))
}

/// The conversations of the store's (id, title) rows: rows with a blank id
/// left out, each id kept at its first row; an error where none is left.
pub fn summaries_from_rows(rows: &Vec<(String, String)>) -> (r: Result<Vec<ChatSummary>, StoreError>)
    ensures
        match r {
            Ok(v) => summaries_of(v@) == kept_rows(rows_view(rows@), rows@.len() as int) && v@.len() > 0
                && forall|i: int| 0 <= i < v@.len() ==> (#[trigger] v@[i]).kind == ChatKind::Unknown,
            Err(e) => kept_rows(rows_view(rows@), rows@.len() as int).len() == 0 && e
                == StoreError::NoConversations,
        },
{
    let ghost rv = rows_view(rows@);
    let mut out: Vec<ChatSummary> = Vec::new();
    let mut i: usize = 0;
    while i < rows.len()
        invariant
            i <= rows.len(),
            rv == rows_view(rows@),
            summaries_of(out@) == kept_rows(rv, i as int),
            forall|k: int| 0 <= k < out@.len() ==> (#[trigger] out@[k]).kind == ChatKind::Unknown,
        decreases rows.len() - i,
    {
        let row = &rows[i];
        assert(rv[i as int] == (row.0@, row.1@));
        let ghost ids = kept_rows(rv, i as int).map_values(|p: (Seq<char>, Seq<char>)| p.0);
        let t = trim_str(row.0.as_str());
        if !t.is_empty() {
            let mut seen = false;
            let mut j: usize = 0;
            while j < out.len()
                invariant
                    j <= out.len(),
                    summaries_of(out@) == kept_rows(rv, i as int),
                    ids == kept_rows(rv, i as int).map_values(|p: (Seq<char>, Seq<char>)| p.0),
                    seen == (exists|k: int| 0 <= k < j && ids[k] == row.0@),
                decreases out.len() - j,
            {
                assert(ids[j as int] == out@[j as int].chat_id@);
                if out[j].chat_id == row.0 {
                    seen = true;
                }
                j = j + 1;
            }
            if !seen {
                let ghost before = summaries_of(out@);
                out.push(
                    ChatSummary {
                        chat_id: row.0.clone(),
                        chat_title: row.1.clone(),
                        kind: ChatKind::Unknown,
                    },
                );
                assert(summaries_of(out@) =~= before.push((row.0@, row.1@)));
            } else {
                proof {
                    let k = choose|k: int| 0 <= k < j && ids[k] == row.0@;
                    assert(ids.contains(row.0@));
                }
            }
        }
        i = i + 1;
    }
    if out.len() == 0 {
        return Err(StoreError::NoConversations);
    }
    Ok(out)
}

/// Rows with non-blank, pairwise distinct ids are all kept, in order.
pub proof fn lemma_distinct_rows_all_kept(rows: Seq<(Seq<char>, Seq<char>)>, n: int)
    requires
        0 <= n <= rows.len(),
        forall|i: int| 0 <= i < rows.len() ==> trim((#[trigger] rows[i]).0).len() > 0,
        forall|i: int, j: int|
            0 <= i < rows.len() && 0 <= j < rows.len() && i != j ==> (#[trigger] rows[i]).0 != (
            #[trigger] rows[j]).0,
    ensures
        kept_rows(rows, n) == rows.subrange(0, n),
    decreases n,
{
    if n > 0 {
        lemma_distinct_rows_all_kept(rows, n - 1);
        let k = kept_rows(rows, n - 1);
        let ids = k.map_values(|p: (Seq<char>, Seq<char>)| p.0);
        if ids.contains(rows[n - 1].0) {
            let m = choose|m: int| 0 <= m < ids.len() && ids[m] == rows[n - 1].0;
            assert(k[m] == rows[m]);
        }
        assert(rows.subrange(0, n - 1).push(rows[n - 1]) =~= rows.subrange(0, n));
    } else {
        assert(rows.subrange(0, 0) =~= Seq::<(Seq<char>, Seq<char>)>::empty());
    }
}

} // verus!
