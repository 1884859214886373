//! Verdicts of an external classifier: the request to send, the reading of
//! its reply, a bounded cache of verdicts and the policy that turns a
//! verdict into an action.
//!
//! The network exchange itself is not done here: `build_request` says what
//! to send, and `judge_reply` reads what came back.

use crate::text::str_eq;
use crate::time::{Duration, Timestamp};
use vstd::prelude::*;
use vstd::string::*;

verus! {

/// The four verdicts a classifier can give on an input.
#[derive(Debug, Clone, Copy, PartialEq, Eq, Structural)]
pub enum JudgmentCategory {
    Safe,
    Suspicious,
    Dangerous,
    Unknown,
}

/// A classifier's verdict on one input.
#[derive(Debug)]
pub struct Judgment {
    pub category: JudgmentCategory,
    pub confidence: u8,
    pub reasoning: String,
    pub timestamp: Timestamp,
}

/// A verdict with its reasoning as a sequence of characters.
pub struct JudgmentView {
    pub category: JudgmentCategory,
    pub confidence: u8,
    pub reasoning: Seq<char>,
    pub timestamp: Timestamp,
}

impl View for Judgment {
    type V = JudgmentView;

    open spec fn view(&self) -> JudgmentView {
        JudgmentView {
            category: self.category,
            confidence: self.confidence,
            reasoning: self.reasoning@,
            timestamp: self.timestamp,
        }
    }
}

impl Clone for Judgment {
    fn clone(&self) -> (copy: Self)
        ensures
            copy == *self,
    {
        Judgment {
            category: self.category,
            confidence: self.confidence,
            reasoning: self.reasoning.clone(),
            timestamp: self.timestamp,
        }
    }
}

/// What to send to the classifier: a POST of `model`, `prompt` and `stream`
/// as a JSON object to `url`, given up after `timeout_ms` milliseconds.
#[derive(Debug)]
pub struct JudgeRequest {
    pub url: String,
    pub model: String,
    pub prompt: String,
    pub stream: bool,
    pub timeout_ms: u64,
}

/// Where the classifier listens, which model answers, and how long to wait.
pub struct OllamaClient {
    pub endpoint: String,
    pub model: String,
    pub timeout_ms: u64,
}

/// The instruction that precedes the input in every prompt.
pub open spec fn prompt_prefix() -> Seq<char> {
    "Classify this input as Safe, Suspicious, Dangerous, or Unknown. Respond with JSON: {\"category\": \"...\", \"confidence\": 0-100, \"reasoning\": \"...\"} \n\n"@
}

/// The category that a classifier names: one of the three known names, and
/// `Unknown` for every other string.
pub open spec fn category_named(name: Seq<char>) -> JudgmentCategory {
    if name == "Safe"@ {
        JudgmentCategory::Safe
    } else if name == "Suspicious"@ {
        JudgmentCategory::Suspicious
    } else if name == "Dangerous"@ {
        JudgmentCategory::Dangerous
    } else {
        JudgmentCategory::Unknown
    }
}

/// The confidence that a reply gives: the number it names where that lies
/// between 0 and 100, and 50 where it names none or one beyond 100.
pub open spec fn confidence_of(confidence: Option<u64>) -> u8 {
    match confidence {
        Some(c) => if c <= 100 {
            c as u8
        } else {
            50u8
        },
        None => 50u8,
    }
}

/// The verdict that the three fields of a reply give at `now`: a missing
/// category is `Unknown`, a missing confidence 50, and so is a confidence
/// beyond 100.
pub open spec fn verdict_of_fields(
    category: Option<Seq<char>>,
    confidence: Option<u64>,
    reasoning: Option<Seq<char>>,
    now: Timestamp,
) -> JudgmentView {
    JudgmentView {
        category: match category {
            Some(name) => category_named(name),
            None => JudgmentCategory::Unknown,
        },
        confidence: confidence_of(confidence),
        reasoning: match reasoning {
            Some(text) => text,
            None => "No reasoning provided"@,
        },
        timestamp: now,
    }
}

/// What `serde_json` finds in the document `text` under `key`: `None` where
/// `text` is not JSON, `Some(None)` where it is but holds no string under
/// `key` (no such member, not an object, or a member of another type), and
/// the string otherwise.
pub uninterp spec fn json_string_at(text: Seq<char>, key: Seq<char>) -> Option<Option<Seq<char>>>;

/// What `serde_json` finds in the document `text` under `key`: `None` where
/// `text` is not JSON, `Some(None)` where it is but holds no number under
/// `key` that is a whole number within `u64`, and the number otherwise.
pub uninterp spec fn json_u64_at(text: Seq<char>, key: Seq<char>) -> Option<Option<u64>>;

/// Parses `text` with `serde_json::from_str` into a `serde_json::Value` and
/// looks `key` up with `Value::get`. The result is `json_string_at`: it tells
/// a text that does not parse from one that holds no string under `key`.
#[verifier::external_body]
fn json_string_field(text: &str, key: &str) -> (found: Option<Option<String>>)
    ensures
        match found {
            None => json_string_at(text@, key@) is None,
            Some(None) => json_string_at(text@, key@) == Some(None::<Seq<char>>),
            Some(Some(s)) => json_string_at(text@, key@) == Some(Some(s@)),
        },
{
    match serde_json::from_str::<serde_json::Value>(text) {
        Ok(doc) => Some(
            match doc.get(key) {
                Some(serde_json::Value::String(s)) => Some(s.clone()),
                _ => None,
            },
        ),
        Err(_) => None,
    }
}

/// Parses `text` with `serde_json::from_str` into a `serde_json::Value`,
/// looks `key` up with `Value::get` and reads a number with
/// `Number::as_u64`. The result is `json_u64_at`.
#[verifier::external_body]
fn json_u64_field(text: &str, key: &str) -> (found: Option<Option<u64>>)
    ensures
        found == json_u64_at(text@, key@),
{
    match serde_json::from_str::<serde_json::Value>(text) {
        Ok(doc) => Some(
            match doc.get(key) {
                Some(serde_json::Value::Number(n)) => n.as_u64(),
                _ => None,
            },
        ),
        Err(_) => None,
    }
}

/// What a reply body gives at `now`. The body must be a JSON document with
/// a string under `response`, and that string a JSON document in turn; its
/// members `category`, `confidence` and `reasoning` then make the verdict.
pub open spec fn verdict_of_body(body: Seq<char>, now: Timestamp) -> Result<
    JudgmentView,
    Seq<char>,
> {
    match json_string_at(body, "response"@) {
        None => Err("Failed to parse response"@),
        Some(None) => Err("Failed to parse Ollama response"@),
        Some(Some(text)) => match json_string_at(text, "category"@) {
            None => Err("Failed to parse Ollama response"@),
            Some(category) => Ok(
                verdict_of_fields(
                    category,
                    match json_u64_at(text, "confidence"@) {
                        Some(c) => c,
                        None => None,
                    },
                    match json_string_at(text, "reasoning"@) {
                        Some(r) => r,
                        None => None,
                    },
                    now,
                ),
            ),
        },
    }
}

/// What the outcome of the exchange gives at `now`: an exchange that failed
/// with `detail` is an error that says so, a body is read by
/// `verdict_of_body`.
pub open spec fn verdict_of_outcome(outcome: Result<Seq<char>, Seq<char>>, now: Timestamp) -> Result<
    JudgmentView,
    Seq<char>,
> {
    match outcome {
        Ok(body) => verdict_of_body(body, now),
        Err(detail) => Err(
            "Ollama connection failed: "@ + detail + ". Defaulting to conservative deny."@,
        ),
    }
}

/// Whether `got` is `want`, a verdict by its view and an error by its text.
pub open spec fn verdict_is(got: Result<Judgment, String>, want: Result<JudgmentView, Seq<char>>) -> bool {
    match got {
        Ok(j) => want == Ok::<JudgmentView, Seq<char>>(j@),
        Err(e) => want == Err::<JudgmentView, Seq<char>>(e@),
    }
}

impl JudgmentCategory {
    /// The category with the given name; `Unknown` for any other string.
    pub fn from_name(name: &str) -> (category: JudgmentCategory)
        ensures
            category == category_named(name@),
    {
        if str_eq(name, "Safe") {
            JudgmentCategory::Safe
        } else if str_eq(name, "Suspicious") {
            JudgmentCategory::Suspicious
        } else if str_eq(name, "Dangerous") {
            JudgmentCategory::Dangerous
        } else {
            JudgmentCategory::Unknown
        }
    }
}

impl Judgment {
    /// The verdict that the fields of a reply give at `now`.
    pub fn from_fields(
        category: Option<String>,
        confidence: Option<u64>,
        reasoning: Option<String>,
        now: Timestamp,
    ) -> (judgment: Judgment)
        ensures
            judgment@ == verdict_of_fields(
                match category {
                    Some(s) => Some(s@),
                    None => None,
                },
                confidence,
                match reasoning {
                    Some(s) => Some(s@),
                    None => None,
                },
                now,
            ),
            judgment.confidence <= 100,
    {
        let category = match category {
            Some(name) => JudgmentCategory::from_name(name.as_str()),
            None => JudgmentCategory::Unknown,
        };
        let confidence: u8 = match confidence {
            Some(c) => if c <= 100 {
                c as u8
            } else {
                50
            },
            None => 50,
        };
        let reasoning = match reasoning {
            Some(text) => text,
            None => "No reasoning provided".to_string(),
        };
        Judgment { category, confidence, reasoning, timestamp: now }
    }
}

impl OllamaClient {
    pub fn new(endpoint: String, model: String) -> (client: Self)
        ensures
            client.endpoint == endpoint,
            client.model == model,
            client.timeout_ms == 5000,
    {
        Self { endpoint, model, timeout_ms: 5000 }
    }

    pub fn set_timeout(&mut self, timeout_ms: u64)
        ensures
            final(self).timeout_ms == timeout_ms,
            final(self).endpoint == old(self).endpoint,
            final(self).model == old(self).model,
    {
        self.timeout_ms = timeout_ms;
    }

    /// The request that asks for a verdict on `input`.
    pub fn build_request(&self, input: &str) -> (request: JudgeRequest)
        ensures
            request.url@ == self.endpoint@ + "/api/generate"@,
            request.model@ == self.model@,
            request.prompt@ == prompt_prefix() + input@,
            request.stream == false,
            request.timeout_ms == self.timeout_ms,
    {
        let prefix = "Classify this input as Safe, Suspicious, Dangerous, or Unknown. Respond with JSON: {\"category\": \"...\", \"confidence\": 0-100, \"reasoning\": \"...\"} \n\n";
        JudgeRequest {
            url: self.endpoint.clone().concat("/api/generate"),
            model: self.model.clone(),
            prompt: prefix.to_string().concat(input),
            stream: false,
            timeout_ms: self.timeout_ms,
        }
    }

    /// Reads the body of a reply that arrived at `now`.
    pub fn parse_reply(body: &str, now: Timestamp) -> (verdict: Result<Judgment, String>)
        ensures
            verdict_is(verdict, verdict_of_body(body@, now)),
            verdict matches Ok(judgment) ==> judgment.confidence <= 100 && judgment.timestamp
                == now,
    {
        let text = match json_string_field(body, "response") {
            None => {
                return Err("Failed to parse response".to_string());
            },
            Some(None) => {
                return Err("Failed to parse Ollama response".to_string());
            },
            Some(Some(text)) => text,
        };
        let category = match json_string_field(text.as_str(), "category") {
            None => {
                return Err("Failed to parse Ollama response".to_string());
            },
            Some(category) => category,
        };
        let confidence = match json_u64_field(text.as_str(), "confidence") {
            Some(c) => c,
            None => None,
        };
        let reasoning = match json_string_field(text.as_str(), "reasoning") {
            Some(r) => r,
            None => None,
        };
        Ok(Judgment::from_fields(category, confidence, reasoning, now))
    }

    /// Reads the outcome of the exchange: the body of the reply, or the
    /// reason why none came. A failed exchange is an error; it is for the
    /// caller to treat an error as a dangerous input.
    pub fn judge_reply(outcome: Result<String, String>, now: Timestamp) -> (verdict: Result<
        Judgment,
        String,
    >)
        ensures
            verdict_is(
                verdict,
                verdict_of_outcome(
                    match outcome {
                        Ok(body) => Ok(body@),
                        Err(detail) => Err(detail@),
                    },
                    now,
                ),
            ),
            verdict matches Ok(judgment) ==> judgment.confidence <= 100 && judgment.timestamp
                == now,
    {
        match outcome {
            Ok(body) => Self::parse_reply(body.as_str(), now),
            Err(detail) => Err(
                "Ollama connection failed: ".to_string().concat(detail.as_str()).concat(
                    ". Defaulting to conservative deny.",
                ),
            ),
        }
    }
}


/// A verdict as the cache keeps it: when it was stored and for how long it
/// counts.
#[derive(Debug)]
pub struct CachedJudgment {
    pub judgment: Judgment,
    pub cached_at: Timestamp,
    pub ttl: Duration,
}

pub struct CachedJudgmentView {
    pub judgment: JudgmentView,
    pub cached_at: Timestamp,
    pub ttl: Duration,
}

impl View for CachedJudgment {
    type V = CachedJudgmentView;

    open spec fn view(&self) -> CachedJudgmentView {
        CachedJudgmentView {
            judgment: self.judgment@,
            cached_at: self.cached_at,
            ttl: self.ttl,
        }
    }
}

impl CachedJudgmentView {
    /// Expired at `now`: the time since it was stored has reached its
    /// time to live.
    pub open spec fn expired_at(self, now: Timestamp) -> bool {
        now.as_nanos() - self.cached_at.as_nanos() >= self.ttl.as_nanos()
    }
}

/// One entry of the cache: a fingerprint and the verdict stored under it.
pub struct CacheSlot {
    pub key: Seq<char>,
    pub cached: CachedJudgmentView,
}

struct CacheEntry {
    key: String,
    cached: CachedJudgment,
}

impl View for CacheEntry {
    type V = CacheSlot;

    closed spec fn view(&self) -> CacheSlot {
        CacheSlot { key: self.key@, cached: self.cached@ }
    }
}

/// A bounded cache of verdicts by fingerprint. Its entries stand in the
/// order in which they were stored; a fingerprint stands at most once.
pub struct JudgmentCache {
    cache: Vec<CacheEntry>,
    max_size: usize,
}

/// The first position at or after `from` whose entry has the key `key`; the
/// number of entries where there is none.
pub open spec fn key_position(slots: Seq<CacheSlot>, key: Seq<char>, from: int) -> int
    decreases slots.len() - from,
{
    if 0 <= from < slots.len() && slots[from].key != key {
        key_position(slots, key, from + 1)
    } else {
        from
    }
}

/// The entry stored under `key`, if there is one.
pub open spec fn lookup(slots: Seq<CacheSlot>, key: Seq<char>) -> Option<CachedJudgmentView> {
    let at = key_position(slots, key, 0);
    if 0 <= at < slots.len() {
        Some(slots[at].cached)
    } else {
        None
    }
}

/// The verdict that a read of `key` at `now` gives: the one stored under
/// `key`, unless it has expired.
pub open spec fn fresh_verdict(slots: Seq<CacheSlot>, key: Seq<char>, now: Timestamp) -> Option<
    JudgmentView,
> {
    match lookup(slots, key) {
        Some(cached) => if cached.expired_at(now) {
            None
        } else {
            Some(cached.judgment)
        },
        None => None,
    }
}

/// The position of the entry that was stored earliest; of those stored at
/// the same instant, the one that stands first. 0 for an empty cache.
pub open spec fn oldest_position(slots: Seq<CacheSlot>) -> int
    decreases slots.len(),
{
    if slots.len() <= 1 {
        0
    } else {
        let before = oldest_position(slots.drop_last());
        if slots.last().cached.cached_at.as_nanos() < slots[before].cached.cached_at.as_nanos() {
            slots.len() - 1
        } else {
            before
        }
    }
}

/// The entries once room is made: at or beyond `max_size` entries, the
/// earliest stored one leaves.
pub open spec fn with_room(slots: Seq<CacheSlot>, max_size: usize) -> Seq<CacheSlot> {
    if slots.len() >= max_size && slots.len() > 0 {
        slots.remove(oldest_position(slots))
    } else {
        slots
    }
}

/// The entries without the one stored under `key`.
pub open spec fn without_key(slots: Seq<CacheSlot>, key: Seq<char>) -> Seq<CacheSlot> {
    let at = key_position(slots, key, 0);
    if 0 <= at < slots.len() {
        slots.remove(at)
    } else {
        slots
    }
}

/// The entries after `slot` is stored in a cache of `max_size`: room is
/// made first, then an entry under the same key leaves, then `slot` joins
/// at the end.
pub open spec fn stored(slots: Seq<CacheSlot>, max_size: usize, slot: CacheSlot) -> Seq<
    CacheSlot,
> {
    without_key(with_room(slots, max_size), slot.key).push(slot)
}

/// The entry that a verdict stored under `key` at `now` makes.
pub open spec fn slot_of(key: Seq<char>, judgment: JudgmentView, ttl: Duration, now: Timestamp) -> CacheSlot {
    CacheSlot { key, cached: CachedJudgmentView { judgment, cached_at: now, ttl } }
}

/// No key stands twice.
pub open spec fn keys_distinct(slots: Seq<CacheSlot>) -> bool {
    forall|i: int, j: int|
        0 <= i < j < slots.len() ==> (#[trigger] slots[i]).key != (#[trigger] slots[j]).key
}

pub struct JudgmentCacheView {
    pub slots: Seq<CacheSlot>,
    pub max_size: usize,
}

impl JudgmentCacheView {
    /// No key stands twice, and the cache holds at most `max_size` entries
    /// (one entry, where `max_size` is 0: room is made before an entry
    /// joins, never after).
    pub open spec fn well_formed(self) -> bool {
        &&& keys_distinct(self.slots)
        &&& (self.slots.len() <= self.max_size || self.slots.len() <= 1)
    }
}

/// The entries as the view shows them.
spec fn slots_of(entries: Seq<CacheEntry>) -> Seq<CacheSlot> {
    entries.map_values(|e: CacheEntry| e@)
}

impl View for JudgmentCache {
    type V = JudgmentCacheView;

    closed spec fn view(&self) -> JudgmentCacheView {
        JudgmentCacheView { slots: slots_of(self.cache@), max_size: self.max_size }
    }
}

pub proof fn lemma_key_position(slots: Seq<CacheSlot>, key: Seq<char>, from: int)
    requires
        0 <= from <= slots.len(),
    ensures
        from <= key_position(slots, key, from) <= slots.len(),
        forall|i: int| from <= i < key_position(slots, key, from) ==> (#[trigger] slots[i]).key != key,
        key_position(slots, key, from) < slots.len() ==> slots[key_position(slots, key, from)].key
            == key,
    decreases slots.len() - from,
{
    if from < slots.len() && slots[from].key != key {
        lemma_key_position(slots, key, from + 1);
    }
}

/// The earliest stored entry is no later than any other, and strictly
/// earlier than all that stand before it.
pub proof fn lemma_oldest_position(slots: Seq<CacheSlot>)
    requires
        slots.len() > 0,
    ensures
        0 <= oldest_position(slots) < slots.len(),
        forall|j: int|
            0 <= j < slots.len() ==> slots[oldest_position(slots)].cached.cached_at.as_nanos() <= (
            #[trigger] slots[j]).cached.cached_at.as_nanos(),
        forall|j: int|
            0 <= j < oldest_position(slots) ==> slots[oldest_position(slots)].cached.cached_at.as_nanos()
                < (#[trigger] slots[j]).cached.cached_at.as_nanos(),
    decreases slots.len(),
{
    if slots.len() > 1 {
        let front = slots.drop_last();
        lemma_oldest_position(front);
        assert forall|j: int| 0 <= j < front.len() implies front[j] == slots[j] by {}
    }
}

/// In a cache whose keys are distinct, the entry at position `at` is the
/// one that a lookup of its key finds.
pub proof fn lemma_lookup_finds(slots: Seq<CacheSlot>, at: int)
    requires
        keys_distinct(slots),
        0 <= at < slots.len(),
    ensures
        key_position(slots, slots[at].key, 0) == at,
        lookup(slots, slots[at].key) == Some(slots[at].cached),
{
    lemma_key_position(slots, slots[at].key, 0);
}

/// A key that no entry has is not found.
pub proof fn lemma_lookup_misses(slots: Seq<CacheSlot>, key: Seq<char>)
    requires
        forall|i: int| 0 <= i < slots.len() ==> (#[trigger] slots[i]).key != key,
    ensures
        key_position(slots, key, 0) == slots.len(),
        lookup(slots, key) is None,
{
    lemma_key_position(slots, key, 0);
}

/// Taking one entry out keeps the keys distinct.
proof fn lemma_remove_keeps_distinct(slots: Seq<CacheSlot>, at: int)
    requires
        keys_distinct(slots),
        0 <= at < slots.len(),
    ensures
        keys_distinct(slots.remove(at)),
        forall|i: int| 0 <= i < slots.remove(at).len() ==> (#[trigger] slots.remove(at)[i]).key != slots[at].key,
{
    let rest = slots.remove(at);
    assert forall|i: int, j: int| 0 <= i < j < rest.len() implies (#[trigger] rest[i]).key != (
    #[trigger] rest[j]).key by {
        let a = if i < at { i } else { i + 1 };
        let b = if j < at { j } else { j + 1 };
        assert(rest[i] == slots[a]);
        assert(rest[j] == slots[b]);
    }
    assert forall|i: int| 0 <= i < rest.len() implies (#[trigger] rest[i]).key != slots[at].key by {
        let a = if i < at { i } else { i + 1 };
        assert(rest[i] == slots[a]);
    }
}

/// After the entry under `key` has left, the keys are still distinct and
/// none of them is `key`.
proof fn lemma_without_key(slots: Seq<CacheSlot>, key: Seq<char>)
    requires
        keys_distinct(slots),
    ensures
        keys_distinct(without_key(slots, key)),
        without_key(slots, key).len() <= slots.len(),
        forall|i: int|
            0 <= i < without_key(slots, key).len() ==> (#[trigger] without_key(slots, key)[i]).key
                != key,
{
    lemma_key_position(slots, key, 0);
    let at = key_position(slots, key, 0);
    if at < slots.len() {
        lemma_remove_keeps_distinct(slots, at);
    }
}

/// A store never lets a key stand twice, and the new entry is the one
/// that a lookup of its key then finds.
pub proof fn lemma_store_keeps_keys_distinct(slots: Seq<CacheSlot>, max_size: usize, slot: CacheSlot)
    requires
        keys_distinct(slots),
    ensures
        keys_distinct(stored(slots, max_size, slot)),
        lookup(stored(slots, max_size, slot), slot.key) == Some(slot.cached),
{
    let roomy = with_room(slots, max_size);
    if slots.len() >= max_size && slots.len() > 0 {
        lemma_oldest_position(slots);
        lemma_remove_keeps_distinct(slots, oldest_position(slots));
    }
    lemma_without_key(roomy, slot.key);
    let kept = without_key(roomy, slot.key);
    let after = stored(slots, max_size, slot);
    assert forall|i: int, j: int| 0 <= i < j < after.len() implies (#[trigger] after[i]).key != (
    #[trigger] after[j]).key by {
        assert(after[i] == kept[i]);
        if j < kept.len() {
            assert(after[j] == kept[j]);
        }
    }
    assert(after[kept.len() as int] == slot);
    lemma_lookup_finds(after, kept.len() as int);
}

/// A store into a cache that respects its bound leaves it within the
/// bound: with room for at least one entry, the cache never holds more than
/// `max_size` entries.
pub proof fn lemma_store_keeps_bound(cache: JudgmentCacheView, slot: CacheSlot)
    requires
        cache.well_formed(),
    ensures
        (JudgmentCacheView {
            slots: stored(cache.slots, cache.max_size, slot),
            max_size: cache.max_size,
        }).well_formed(),
        cache.max_size >= 1 ==> stored(cache.slots, cache.max_size, slot).len() <= cache.max_size,
{
    let slots = cache.slots;
    let roomy = with_room(slots, cache.max_size);
    lemma_store_keeps_keys_distinct(slots, cache.max_size, slot);
    if slots.len() >= cache.max_size && slots.len() > 0 {
        lemma_oldest_position(slots);
        lemma_remove_keeps_distinct(slots, oldest_position(slots));
    }
    lemma_without_key(roomy, slot.key);
}

/// A store into a full cache evicts the entry with the smallest time of
/// storing: no entry was stored before it, it is gone afterwards (unless
/// the new entry has its key), and every other entry is still found as it
/// was (unless the new entry has its key).
#[verifier::rlimit(60)]
pub proof fn lemma_store_evicts_oldest(slots: Seq<CacheSlot>, max_size: usize, slot: CacheSlot)
    requires
        keys_distinct(slots),
        slots.len() >= max_size,
        slots.len() > 0,
    ensures
        0 <= oldest_position(slots) < slots.len(),
        forall|j: int|
            0 <= j < slots.len() ==> slots[oldest_position(slots)].cached.cached_at.as_nanos() <= (
            #[trigger] slots[j]).cached.cached_at.as_nanos(),
        slots[oldest_position(slots)].key != slot.key ==> lookup(
            stored(slots, max_size, slot),
            slots[oldest_position(slots)].key,
        ) is None,
        forall|j: int|
            0 <= j < slots.len() && j != oldest_position(slots) && (#[trigger] slots[j]).key
                != slot.key ==> lookup(stored(slots, max_size, slot), slots[j].key) == Some(
                slots[j].cached,
            ),
{
    lemma_oldest_position(slots);
    let victim = oldest_position(slots);
    let roomy = slots.remove(victim);
    lemma_remove_keeps_distinct(slots, victim);
    lemma_key_position(roomy, slot.key, 0);
    lemma_store_keeps_keys_distinct(slots, max_size, slot);
    let at = key_position(roomy, slot.key, 0);
    let kept = without_key(roomy, slot.key);
    let after = stored(slots, max_size, slot);
    if slots[victim].key != slot.key {
        assert forall|i: int| 0 <= i < after.len() implies (#[trigger] after[i]).key
            != slots[victim].key by {
            if i < kept.len() {
                let r = if at < roomy.len() && i >= at { i + 1 } else { i };
                assert(after[i] == roomy[r]);
            }
        }
        lemma_lookup_misses(after, slots[victim].key);
    }
    assert forall|j: int|
        0 <= j < slots.len() && j != victim && (#[trigger] slots[j]).key != slot.key implies lookup(
        after,
        slots[j].key,
    ) == Some(slots[j].cached) by {
        let r = if j < victim { j } else { j - 1 };
        assert(roomy[r] == slots[j]);
        let k = if at < roomy.len() && r > at { r - 1 } else { r };
        assert(after[k] == slots[j]);
        lemma_lookup_finds(after, k);
    }
}

/// An entry whose time to live has passed at `now` is not handed out.
pub proof fn lemma_expired_entry_misses(slots: Seq<CacheSlot>, key: Seq<char>, now: Timestamp)
    requires
        lookup(slots, key) matches Some(cached) && cached.expired_at(now),
    ensures
        fresh_verdict(slots, key, now) is None,
{
}

/// The position of `key` among `entries`; their number where it is not
/// among them.
fn position_in(entries: &Vec<CacheEntry>, key: &str) -> (at: usize)
    ensures
        at == key_position(slots_of(entries@), key@, 0),
        at <= entries@.len(),
{
    let mut at: usize = 0;
    while at < entries.len() && !str_eq(entries[at].key.as_str(), key)
        invariant
            at <= entries@.len(),
            key_position(slots_of(entries@), key@, 0) == key_position(
                slots_of(entries@),
                key@,
                at as int,
            ),
        decreases entries@.len() - at,
    {
        at = at + 1;
    }
    at
}

/// The position of the entry of `entries` that was stored earliest.
fn oldest_in(entries: &Vec<CacheEntry>) -> (at: usize)
    requires
        entries@.len() > 0,
    ensures
        at == oldest_position(slots_of(entries@)),
        at < entries@.len(),
{
    let ghost slots = slots_of(entries@);
    let mut best: usize = 0;
    let mut i: usize = 1;
    assert(slots.take(1).len() == 1);
    while i < entries.len()
        invariant
            1 <= i <= entries@.len(),
            best < i,
            slots == slots_of(entries@),
            best == oldest_position(slots.take(i as int)),
        decreases entries@.len() - i,
    {
        let ghost upto = slots.take(i + 1);
        assert(upto.drop_last() =~= slots.take(i as int));
        assert(upto.last() == slots[i as int]);
        assert(upto[best as int] == slots[best as int]);
        if entries[i].cached.cached_at.is_before(&entries[best].cached.cached_at) {
            best = i;
        }
        i = i + 1;
    }
    assert(slots.take(i as int) =~= slots);
    best
}

impl JudgmentCache {
    /// No key stands twice, and the cache stays within its bound.
    #[verifier::type_invariant]
    closed spec fn bounded(&self) -> bool {
        self@.well_formed()
    }

    pub fn new(max_size: usize) -> (cache: Self)
        ensures
            cache@.slots.len() == 0,
            cache@.max_size == max_size,
            cache@.well_formed(),
    {
        Self { cache: Vec::new(), max_size }
    }

    /// The number of entries, expired ones included. It never exceeds
    /// `max_size`, but for a cache of `max_size` 0, which holds up to one
    /// entry.
    pub fn size(&self) -> (n: usize)
        ensures
            n == self@.slots.len(),
            self@.well_formed(),
            n <= self@.max_size || n <= 1,
    {
        proof {
            use_type_invariant(self);
        }
        self.cache.len()
    }

    pub fn clear(&mut self)
        ensures
            final(self)@.slots.len() == 0,
            final(self)@.max_size == old(self)@.max_size,
            final(self)@.well_formed(),
    {
        let mut entries: Vec<CacheEntry> = Vec::new();
        core::mem::swap(&mut self.cache, &mut entries);
    }

    /// The verdict stored under `input_hash`, unless it has expired at
    /// `now`. An expired entry stays in the cache.
    pub fn get_at(&self, input_hash: &str, now: Timestamp) -> (verdict: Option<Judgment>)
        ensures
            match verdict {
                Some(j) => fresh_verdict(self@.slots, input_hash@, now) == Some(j@),
                None => fresh_verdict(self@.slots, input_hash@, now) is None,
            },
    {
        let at = position_in(&self.cache, input_hash);
        if at < self.cache.len() {
            let cached = &self.cache[at].cached;
            let elapsed = now.nanos_since(&cached.cached_at);
            if elapsed < cached.ttl.to_nanos() {
                return Some(cached.judgment.clone());
            }
        }
        None
    }

    /// The verdict stored under `input_hash`, unless it has expired by the
    /// system clock.
    pub fn get(&self, input_hash: &str) -> (verdict: Option<Judgment>)
        ensures
            exists|now: Timestamp|
                now.within_clock_range() && match verdict {
                    Some(j) => #[trigger] fresh_verdict(self@.slots, input_hash@, now) == Some(j@),
                    None => fresh_verdict(self@.slots, input_hash@, now) is None,
                },
    {
        let now = Timestamp::now();
        self.get_at(input_hash, now)
    }

    /// Stores `judgment` under `input_hash` as of `now`. A full cache first
    /// loses the entry that was stored earliest; an entry under the same
    /// fingerprint is replaced. The cache stays within its bound: with a
    /// `max_size` of at least 1 it never holds more than `max_size` entries.
    pub fn store_at(&mut self, input_hash: String, judgment: Judgment, ttl: Duration, now: Timestamp)
        ensures
            final(self)@.max_size == old(self)@.max_size,
            final(self)@.slots == stored(
                old(self)@.slots,
                old(self)@.max_size,
                slot_of(input_hash@, judgment@, ttl, now),
            ),
            old(self)@.well_formed(),
            final(self)@.well_formed(),
            final(self)@.max_size >= 1 ==> final(self)@.slots.len() <= final(self)@.max_size,
    {
        proof {
            use_type_invariant(&*self);
            lemma_store_keeps_bound(self@, slot_of(input_hash@, judgment@, ttl, now));
        }
        let ghost from = self@.slots;
        let mut entries: Vec<CacheEntry> = Vec::new();
        core::mem::swap(&mut self.cache, &mut entries);
        if entries.len() >= self.max_size && entries.len() > 0 {
            let victim = oldest_in(&entries);
            let ghost before = slots_of(entries@);
            entries.remove(victim);
            assert(slots_of(entries@) =~= before.remove(victim as int));
        }
        let at = position_in(&entries, input_hash.as_str());
        if at < entries.len() {
            let ghost before = slots_of(entries@);
            entries.remove(at);
            assert(slots_of(entries@) =~= before.remove(at as int));
        }
        let ghost before = slots_of(entries@);
        let entry = CacheEntry {
            key: input_hash,
            cached: CachedJudgment { judgment, cached_at: now, ttl },
        };
        entries.push(entry);
        assert(slots_of(entries@) =~= before.push(entry@));
        assert(slots_of(entries@) == stored(
            from,
            self.max_size,
            slot_of(input_hash@, judgment@, ttl, now),
        ));
        core::mem::swap(&mut self.cache, &mut entries);
    }

    /// Stores `judgment` under `input_hash` as of the system clock.
    pub fn store(&mut self, input_hash: String, judgment: Judgment, ttl: Duration)
        ensures
            final(self)@.max_size == old(self)@.max_size,
            exists|now: Timestamp|
                now.within_clock_range() && final(self)@.slots == stored(
                    old(self)@.slots,
                    old(self)@.max_size,
                    #[trigger] slot_of(input_hash@, judgment@, ttl, now),
                ),
            old(self)@.well_formed(),
            final(self)@.well_formed(),
            final(self)@.max_size >= 1 ==> final(self)@.slots.len() <= final(self)@.max_size,
    {
        let now = Timestamp::now();
        self.store_at(input_hash, judgment, ttl, now);
    }
}

/// What to do with an input once it has a verdict.
#[derive(Debug, Clone, Copy, PartialEq, Eq, Structural)]
pub enum PolicyAction {
    Allow,
    RequireConfirmation,
    Deny,
}

/// A table from each category of verdict to an action.
pub struct JudgmentPolicy {
    safe_action: PolicyAction,
    suspicious_action: PolicyAction,
    dangerous_action: PolicyAction,
    unknown_action: PolicyAction,
}

impl JudgmentPolicy {
    /// The action that the table holds for `category`.
    pub closed spec fn action_of(&self, category: JudgmentCategory) -> PolicyAction {
        match category {
            JudgmentCategory::Safe => self.safe_action,
            JudgmentCategory::Suspicious => self.suspicious_action,
            JudgmentCategory::Dangerous => self.dangerous_action,
            JudgmentCategory::Unknown => self.unknown_action,
        }
    }

    /// The category by which the outcome of a classifier call is judged: a
    /// call that failed counts as a dangerous input.
    pub open spec fn category_of_outcome(outcome: Result<Judgment, String>) -> JudgmentCategory {
        match outcome {
            Ok(judgment) => judgment.category,
            Err(_) => JudgmentCategory::Dangerous,
        }
    }

    /// The default table: safe inputs pass, dangerous ones are refused, the
    /// rest need confirmation.
    pub fn new() -> (policy: Self)
        ensures
            policy.action_of(JudgmentCategory::Safe) == PolicyAction::Allow,
            policy.action_of(JudgmentCategory::Suspicious) == PolicyAction::RequireConfirmation,
            policy.action_of(JudgmentCategory::Dangerous) == PolicyAction::Deny,
            policy.action_of(JudgmentCategory::Unknown) == PolicyAction::RequireConfirmation,
    {
        Self {
            safe_action: PolicyAction::Allow,
            suspicious_action: PolicyAction::RequireConfirmation,
            dangerous_action: PolicyAction::Deny,
            unknown_action: PolicyAction::RequireConfirmation,
        }
    }

    pub fn get_action(&self, category: JudgmentCategory) -> (action: PolicyAction)
        ensures
            action == self.action_of(category),
    {
        match category {
            JudgmentCategory::Safe => self.safe_action,
            JudgmentCategory::Suspicious => self.suspicious_action,
            JudgmentCategory::Dangerous => self.dangerous_action,
            JudgmentCategory::Unknown => self.unknown_action,
        }
    }

    /// Sets the action for `category` and leaves the other three as they are.
    pub fn set_action(&mut self, category: JudgmentCategory, action: PolicyAction)
        ensures
            forall|other: JudgmentCategory|
                #[trigger] final(self).action_of(other) == if other == category {
                    action
                } else {
                    old(self).action_of(other)
                },
    {
        match category {
            JudgmentCategory::Safe => self.safe_action = action,
            JudgmentCategory::Suspicious => self.suspicious_action = action,
            JudgmentCategory::Dangerous => self.dangerous_action = action,
            JudgmentCategory::Unknown => self.unknown_action = action,
        }
    }

    /// The action for the outcome of a classifier call. A verdict is
    /// looked up by its category; a call that failed gets the action for
    /// dangerous inputs.
    pub fn action_for_outcome(&self, outcome: &Result<Judgment, String>) -> (action: PolicyAction)
        ensures
            action == self.action_of(Self::category_of_outcome(*outcome)),
    {
        match outcome {
            Ok(judgment) => self.get_action(judgment.category),
            Err(_) => self.get_action(JudgmentCategory::Dangerous),
        }
    }
}

} // verus!
