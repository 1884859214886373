//! Session tokens: how one is made, and the table of those in force.
//!
//! A token is in force from its making until it expires or is revoked. A
//! revoked token stays revoked, also where a token of the same name is
//! stored again.

use crate::random::random_bytes;
use crate::string_map::StringMap;
use crate::text::{list_contains, views};
use crate::time::{Duration, Timestamp, CLOCK_LIMIT_SECS};
use base64::Engine;
use vstd::prelude::*;
use vstd::string::*;

verus! {

#[derive(Debug)]
pub struct SessionToken {
    pub token_id: String,
    pub user_id: String,
    pub created_at: Timestamp,
    pub expires_at: Timestamp,
    pub last_used: Timestamp,
}

pub struct SessionTokenView {
    pub token_id: Seq<char>,
    pub user_id: Seq<char>,
    pub created_at: Timestamp,
    pub expires_at: Timestamp,
    pub last_used: Timestamp,
}

impl View for SessionToken {
    type V = SessionTokenView;

    open spec fn view(&self) -> SessionTokenView {
        SessionTokenView {
            token_id: self.token_id@,
            user_id: self.user_id@,
            created_at: self.created_at,
            expires_at: self.expires_at,
            last_used: self.last_used,
        }
    }
}

impl Clone for SessionToken {
    fn clone(&self) -> (copy: Self)
        ensures
            copy == *self,
    {
        SessionToken {
            token_id: self.token_id.clone(),
            user_id: self.user_id.clone(),
            created_at: self.created_at,
            expires_at: self.expires_at,
            last_used: self.last_used,
        }
    }
}

/// The base64 text of `bytes` in the URL-safe alphabet without padding.
pub uninterp spec fn base64_url_no_pad(bytes: Seq<u8>) -> Seq<char>;

/// Encodes 32 bytes with `base64::engine::general_purpose::URL_SAFE_NO_PAD`
/// through `Engine::encode`. The result is `base64_url_no_pad`; for 32
/// bytes it has 43 characters.
#[verifier::external_body]
fn encode_token(bytes: &[u8; 32]) -> (text: String)
    ensures
        text@ == base64_url_no_pad(bytes@),
        text@.len() == 43,
{
    base64::engine::general_purpose::URL_SAFE_NO_PAD.encode(bytes)
}

/// The token that `token_bytes` name for `user_id`, made at `now` and in
/// force for `expiration_hours` hours; `None` where the end cannot be
/// counted in seconds.
pub open spec fn token_made(
    user_id: Seq<char>,
    expiration_hours: i64,
    token_bytes: Seq<u8>,
    now: Timestamp,
    token: Option<SessionTokenView>,
) -> bool {
    let end = now.as_nanos() + expiration_hours as int * 3600 * 1_000_000_000;
    if i64::MIN <= expiration_hours as int * 3600 <= i64::MAX && i64::MIN as int * 1_000_000_000
        <= end < (i64::MAX as int + 1) * 1_000_000_000 {
        token matches Some(t) && {
            &&& t.token_id == base64_url_no_pad(token_bytes)
            &&& t.user_id == user_id
            &&& t.created_at == now
            &&& t.last_used == now
            &&& t.expires_at.as_nanos() == end
            &&& t.expires_at.nanos < 1_000_000_000
        }
    } else {
        token is None
    }
}

/// The end of a token that is in force for `expiration_hours` hours can be
/// counted in seconds whatever the clock reads: the hours, in seconds, stay
/// as far from the ends of `i64` as the clock can be from the epoch.
pub open spec fn countable_at_any_time(expiration_hours: i64) -> bool {
    i64::MIN + CLOCK_LIMIT_SECS <= expiration_hours as int * 3600 <= i64::MAX - CLOCK_LIMIT_SECS
        - 2
}

/// The view of a token that was made, or of none.
pub open spec fn made_view(token: Option<SessionToken>) -> Option<SessionTokenView> {
    match token {
        Some(t) => Some(t@),
        None => None,
    }
}

pub struct TokenGenerator;

impl TokenGenerator {
    /// The token that `token_bytes` name, made at `now`.
    pub fn generate_with(user_id: String, expiration_hours: i64, token_bytes: [u8; 32], now: Timestamp) -> (token:
        Option<SessionToken>)
        ensures
            token_made(
                user_id@,
                expiration_hours,
                token_bytes@,
                now,
                made_view(token),
            ),
            token matches Some(t) ==> t.token_id@.len() == 43,
    {
        let span = match Duration::checked_hours(expiration_hours) {
            Some(span) => span,
            None => {
                return None;
            },
        };
        let expires_at = match now.checked_add(&span) {
            Some(t) => t,
            None => {
                return None;
            },
        };
        Some(
            SessionToken {
                token_id: encode_token(&token_bytes),
                user_id,
                created_at: now,
                expires_at,
                last_used: now,
            },
        )
    }

    /// A token with a freshly drawn name, made at the instant of the
    /// system clock and in force for `expiration_hours` hours. It is made
    /// wherever its end can be counted in seconds, which is so for every
    /// number of hours that is `countable_at_any_time`; `None` where it
    /// cannot.
    pub fn generate(user_id: String, expiration_hours: i64) -> (token: Option<SessionToken>)
        ensures
            exists|token_bytes: Seq<u8>, now: Timestamp|
                token_bytes.len() == 32 && now.within_clock_range() && #[trigger] token_made(
                    user_id@,
                    expiration_hours,
                    token_bytes,
                    now,
                    made_view(token),
                ),
            countable_at_any_time(expiration_hours) ==> token is Some,
            token matches Some(t) ==> {
                &&& t.user_id@ == user_id@
                &&& t.token_id@.len() == 43
                &&& t.last_used == t.created_at
                &&& t.created_at.within_clock_range()
                &&& t.expires_at.as_nanos() == t.created_at.as_nanos() + expiration_hours as int
                    * 3600 * 1_000_000_000
            },
    {
        let token_bytes = random_bytes::<32>();
        let now = Timestamp::now();
        let token = Self::generate_with(user_id, expiration_hours, token_bytes, now);
        assert(token_made(user_id@, expiration_hours, token_bytes@, now, made_view(token)));
        token
    }
}

pub struct TokenStore {
    tokens: StringMap<SessionToken>,
    revoked_tokens: Vec<String>,
}

pub struct TokenStoreView {
    /// The tokens in the table, by name.
    pub tokens: Map<Seq<char>, SessionTokenView>,
    /// The names that were revoked.
    pub revoked: Set<Seq<char>>,
}

/// The views of the tokens of a map.
pub open spec fn token_views(tokens: Map<Seq<char>, SessionToken>) -> Map<
    Seq<char>,
    SessionTokenView,
> {
    tokens.map_values(|t: SessionToken| t@)
}

impl TokenStoreView {
    /// What a validation of `token_id` at `now` gives: the token as it
    /// stood, or why it is not in force.
    pub open spec fn validated(self, token_id: Seq<char>, now: Timestamp) -> Result<
        SessionTokenView,
        Seq<char>,
    > {
        if self.revoked.contains(token_id) {
            Err("Token revoked"@)
        } else if !self.tokens.contains_key(token_id) {
            Err("Token not found"@)
        } else if self.tokens[token_id].expires_at.as_nanos() < now.as_nanos() {
            Err("Token expired"@)
        } else {
            Ok(self.tokens[token_id])
        }
    }

    /// The table after a validation of `token_id` at `now`: a token in
    /// force is marked as used at `now`.
    pub open spec fn after_validation(self, token_id: Seq<char>, now: Timestamp) -> TokenStoreView {
        if self.validated(token_id, now) is Ok {
            TokenStoreView {
                tokens: self.tokens.insert(
                    token_id,
                    SessionTokenView { last_used: now, ..self.tokens[token_id] },
                ),
                revoked: self.revoked,
            }
        } else {
            self
        }
    }

    /// The names of the tokens that end after `now`.
    pub open spec fn live(self, now: Timestamp) -> Set<Seq<char>> {
        Set::new(
            |id: Seq<char>|
                self.tokens.contains_key(id) && self.tokens[id].expires_at.as_nanos()
                    > now.as_nanos(),
        )
    }
}

impl View for TokenStore {
    type V = TokenStoreView;

    closed spec fn view(&self) -> TokenStoreView {
        TokenStoreView {
            tokens: token_views(self.tokens@),
            revoked: views(self.revoked_tokens@).to_set(),
        }
    }
}

/// Whether `got` is `want`, the token taken by its view and the error by
/// its text.
pub open spec fn token_is(got: Result<SessionToken, String>, want: Result<
    SessionTokenView,
    Seq<char>,
>) -> bool {
    match got {
        Ok(token) => want == Ok::<SessionTokenView, Seq<char>>(token@),
        Err(message) => want == Err::<SessionTokenView, Seq<char>>(message@),
    }
}

impl TokenStore {
    pub fn new() -> (store: Self)
        ensures
            store@.tokens == Map::<Seq<char>, SessionTokenView>::empty(),
            store@.revoked == Set::<Seq<char>>::empty(),
    {
        let store = Self { tokens: StringMap::new(), revoked_tokens: Vec::new() };
        assert(store@.tokens =~= Map::<Seq<char>, SessionTokenView>::empty());
        assert(store@.revoked =~= Set::<Seq<char>>::empty());
        store
    }

    /// Puts `token` into the table under its name, in place of a token of
    /// the same name.
    pub fn store(&mut self, token: SessionToken)
        ensures
            final(self)@ == (TokenStoreView {
                tokens: old(self)@.tokens.insert(token.token_id@, token@),
                ..old(self)@
            }),
    {
        let id = token.token_id.clone();
        self.tokens.insert(id, token);
        assert(self@.tokens =~= old(self)@.tokens.insert(token.token_id@, token@));
    }

    /// Checks at `now` that `token_id` is in force: not revoked, in the
    /// table, and not past its end. A token in force is handed out as it
    /// stood and marked as used at `now`.
    pub fn validate_at(&mut self, token_id: &str, now: Timestamp) -> (result: Result<
        SessionToken,
        String,
    >)
        ensures
            token_is(result, old(self)@.validated(token_id@, now)),
            final(self)@ == old(self)@.after_validation(token_id@, now),
    {
        if list_contains(&self.revoked_tokens, token_id) {
            return Err("Token revoked".to_string());
        }
        let ghost before = self.tokens@;
        proof {
            assert forall|t: SessionToken| #[trigger]
                token_views(before.insert(token_id@, t)) == token_views(before).insert(
                    token_id@,
                    t@,
                ) by {
                assert(token_views(before.insert(token_id@, t)) =~= token_views(before).insert(
                    token_id@,
                    t@,
                ));
            }
            assert(token_views(before).insert(token_id@, before[token_id@]@).contains_key(token_id@));
        }
        match self.tokens.get_mut(token_id) {
            Some(token) => {
                let found = token.clone();
                if token.expires_at.is_before(&now) {
                    assert(token_views(before.insert(token_id@, *token)) =~= token_views(before));
                    return Err("Token expired".to_string());
                }
                token.last_used = now;
                Ok(found)
            },
            None => Err("Token not found".to_string()),
        }
    }

    /// Checks by the system clock that `token_id` is in force.
    pub fn validate(&mut self, token_id: &str) -> (result: Result<SessionToken, String>)
        ensures
            exists|now: Timestamp|
                now.within_clock_range() && token_is(
                    result,
                    #[trigger] old(self)@.validated(token_id@, now),
                ) && final(self)@ == old(self)@.after_validation(token_id@, now),
    {
        let now = Timestamp::now();
        let result = self.validate_at(token_id, now);
        assert(token_is(result, old(self)@.validated(token_id@, now)));
        result
    }

    /// Revokes `token_id` for good and takes it out of the table.
    pub fn revoke(&mut self, token_id: &str)
        ensures
            final(self)@ == (TokenStoreView {
                tokens: old(self)@.tokens.remove(token_id@),
                revoked: old(self)@.revoked.insert(token_id@),
            }),
    {
        if !list_contains(&self.revoked_tokens, token_id) {
            let ghost before = views(self.revoked_tokens@);
            self.revoked_tokens.push(token_id.to_string());
            assert(views(self.revoked_tokens@) =~= before.push(token_id@));
            assert forall|w: Seq<char>| before.push(token_id@).contains(w) <==> (w == token_id@
                || before.contains(w)) by {
                let pushed = before.push(token_id@);
                if before.contains(w) {
                    let i = choose|i: int| 0 <= i < before.len() && before[i] == w;
                    assert(pushed[i] == w);
                }
                if w == token_id@ {
                    assert(pushed[pushed.len() - 1] == w);
                }
            }
        }
        assert(self@.revoked =~= old(self)@.revoked.insert(token_id@));
        self.tokens.remove(token_id);
        assert(self@.tokens =~= old(self)@.tokens.remove(token_id@));
    }

    /// Takes out of the table every token that does not end after `now`,
    /// and says how many they were.
    pub fn cleanup_expired_at(&mut self, now: Timestamp) -> (removed: usize)
        ensures
            final(self)@.revoked == old(self)@.revoked,
            final(self)@.tokens == old(self)@.tokens.restrict(old(self)@.live(now)),
            old(self)@.tokens.dom().finite(),
            removed == old(self)@.tokens.dom().len() - final(self)@.tokens.dom().len(),
    {
        let before_len = self.tokens.len();
        let keys = self.tokens.keys();
        let ghost all = self.tokens@;
        let ghost names = views(keys@);
        let mut i: usize = 0;
        while i < keys.len()
            invariant
                i <= keys@.len(),
                names == views(keys@),
                names.to_set() == all.dom(),
                self.revoked_tokens == old(self).revoked_tokens,
                self.tokens@ == all.remove_keys(
                    Set::new(
                        |id: Seq<char>|
                            names.take(i as int).contains(id) && all[id].expires_at.as_nanos()
                                <= now.as_nanos(),
                    ),
                ),
            decreases keys@.len() - i,
        {
            let ghost done = Set::new(
                |id: Seq<char>|
                    names.take(i as int).contains(id) && all[id].expires_at.as_nanos()
                        <= now.as_nanos(),
            );
            let ghost name = names[i as int];
            assert(names.contains(name));
            assert(all.dom().contains(name));
            let ghost upto = names.take(i + 1);
            let ghost sofar = names.take(i as int);
            assert forall|id: Seq<char>| upto.contains(id) <==> (id == name || sofar.contains(
                id,
            )) by {
                if sofar.contains(id) {
                    let k = choose|k: int| 0 <= k < sofar.len() && #[trigger] sofar[k] == id;
                    assert(upto[k] == id);
                }
                if id == name {
                    assert(upto[i as int] == id);
                }
                if upto.contains(id) {
                    let k = choose|k: int| 0 <= k < upto.len() && #[trigger] upto[k] == id;
                    if k < i {
                        assert(sofar[k] == id);
                    }
                }
            }
            let expired = match self.tokens.get(keys[i].as_str()) {
                Some(token) => !token.expires_at.is_after(&now),
                None => false,
            };
            if expired {
                self.tokens.remove(keys[i].as_str());
            }
            i = i + 1;
            assert(self.tokens@ =~= all.remove_keys(
                Set::new(
                    |id: Seq<char>|
                        names.take(i as int).contains(id) && all[id].expires_at.as_nanos()
                            <= now.as_nanos(),
                ),
            ));
        }
        proof {
            assert(names.take(i as int) =~= names);
            assert(self@.tokens =~= old(self)@.tokens.restrict(old(self)@.live(now)));
            assert(self@.tokens.dom() =~= self.tokens@.dom());
            assert(old(self)@.tokens.dom() =~= all.dom());
            vstd::set_lib::lemma_len_subset(self.tokens@.dom(), all.dom());
        }
        let after_len = self.tokens.len();
        before_len - after_len
    }

    /// Takes out of the table every token that has ended by the system
    /// clock, and says how many they were.
    pub fn cleanup_expired(&mut self) -> (removed: usize)
        ensures
            final(self)@.revoked == old(self)@.revoked,
            exists|now: Timestamp|
                now.within_clock_range() && final(self)@.tokens == old(self)@.tokens.restrict(
                    #[trigger] old(self)@.live(now),
                ),
            old(self)@.tokens.dom().finite(),
            removed == old(self)@.tokens.dom().len() - final(self)@.tokens.dom().len(),
    {
        let now = Timestamp::now();
        let removed = self.cleanup_expired_at(now);
        assert(self@.tokens == old(self)@.tokens.restrict(old(self)@.live(now)));
        removed
    }

    /// The token stored under `token_id`, as it stands.
    pub fn get_token(&self, token_id: &str) -> (token: Option<SessionToken>)
        ensures
            match token {
                Some(t) => self@.tokens.contains_key(token_id@) && t@ == self@.tokens[token_id@],
                None => !self@.tokens.contains_key(token_id@),
            },
    {
        match self.tokens.get(token_id) {
            Some(token) => Some(token.clone()),
            None => None,
        }
    }

    /// The number of tokens in the table.
    pub fn token_count(&self) -> (count: usize)
        ensures
            self@.tokens.dom().finite(),
            count == self@.tokens.dom().len(),
    {
        assert(self@.tokens.dom() =~= self.tokens@.dom());
        self.tokens.len()
    }
}

} // verus!
