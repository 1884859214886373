//! Who may reach a credential, with which tool, and how often.
//!
//! A policy checks the user, then the tool, then the rate, and records every
//! decision in its log. The rate limiter counts the requests it accepted
//! within a sliding window.

use crate::string_map::StringMap;
use crate::text::{list_contains, views};
use crate::time::{Duration, Timestamp};
use std::collections::VecDeque;
use vstd::prelude::*;

verus! {

#[derive(Debug, Clone, Copy, PartialEq, Eq, Structural)]
pub enum AccessAction {
    Read,
    Decrypt,
    Rotate,
}

#[derive(Debug, Clone, Copy, PartialEq, Eq, Structural)]
pub enum AccessStatus {
    Allowed,
    Denied,
    RateLimited,
}

/// One decision of a policy.
#[derive(Debug)]
pub struct AccessEvent {
    pub timestamp: Timestamp,
    pub credential_id: String,
    pub action: AccessAction,
    pub user: String,
    pub status: AccessStatus,
}

pub struct AccessEventView {
    pub timestamp: Timestamp,
    pub credential_id: Seq<char>,
    pub action: AccessAction,
    pub user: Seq<char>,
    pub status: AccessStatus,
}

impl View for AccessEvent {
    type V = AccessEventView;

    open spec fn view(&self) -> AccessEventView {
        AccessEventView {
            timestamp: self.timestamp,
            credential_id: self.credential_id@,
            action: self.action,
            user: self.user@,
            status: self.status,
        }
    }
}

impl Clone for AccessEvent {
    fn clone(&self) -> (copy: Self)
        ensures
            copy == *self,
    {
        AccessEvent {
            timestamp: self.timestamp,
            credential_id: self.credential_id.clone(),
            action: self.action,
            user: self.user.clone(),
            status: self.status,
        }
    }
}

/// A sliding-window counter of accepted requests.
pub struct RateLimiter {
    window_size: Duration,
    max_requests: u32,
    requests: VecDeque<Timestamp>,
}

pub struct RateLimiterView {
    pub window: Duration,
    pub max_requests: u32,
    /// The instants of the accepted requests that are still counted, oldest
    /// first.
    pub requests: Seq<Timestamp>,
}

/// `t` has left the window that ends at `now`: it lies strictly before
/// `now - window`. An instant exactly at `now - window` is still inside.
pub open spec fn is_stale(t: Timestamp, window: Duration, now: Timestamp) -> bool {
    t.as_nanos() < now.as_nanos() - window.as_nanos()
}

/// The first position at or after `from` whose instant is not stale at
/// `now`; the length of `requests` where all are.
pub open spec fn stale_end(requests: Seq<Timestamp>, window: Duration, now: Timestamp, from: int) -> int
    decreases requests.len() - from,
{
    if 0 <= from < requests.len() && is_stale(requests[from], window, now) {
        stale_end(requests, window, now, from + 1)
    } else {
        from
    }
}

/// No instant is earlier than one before it.
pub open spec fn chronological(times: Seq<Timestamp>) -> bool {
    forall|i: int, j: int|
        0 <= i <= j < times.len() ==> (#[trigger] times[i]).as_nanos() <= (#[trigger] times[j]).as_nanos()
}

impl RateLimiterView {
    /// What is left of the queue at `now`: stale instants leave from the
    /// front, up to the first one that is not stale.
    pub open spec fn pruned(self, now: Timestamp) -> Seq<Timestamp> {
        self.requests.skip(stale_end(self.requests, self.window, now, 0))
    }

    /// A request at `now` is accepted: fewer than `max_requests` are left
    /// in the window.
    pub open spec fn admits(self, now: Timestamp) -> bool {
        self.pruned(now).len() < self.max_requests
    }

    /// The limiter after a check at `now`: the queue is pruned, and `now`
    /// joins it if the request is accepted.
    pub open spec fn checked(self, now: Timestamp) -> RateLimiterView {
        RateLimiterView {
            window: self.window,
            max_requests: self.max_requests,
            requests: if self.admits(now) {
                self.pruned(now).push(now)
            } else {
                self.pruned(now)
            },
        }
    }

    /// The limiter after checks at each of `times`, in their order.
    pub open spec fn checked_all(self, times: Seq<Timestamp>) -> RateLimiterView
        decreases times.len(),
    {
        if times.len() == 0 {
            self
        } else {
            self.checked_all(times.drop_last()).checked(times.last())
        }
    }

    /// The instants among `times` at which the check was accepted.
    pub open spec fn accepted(self, times: Seq<Timestamp>) -> Seq<Timestamp>
        decreases times.len(),
    {
        if times.len() == 0 {
            Seq::empty()
        } else if self.checked_all(times.drop_last()).admits(times.last()) {
            self.accepted(times.drop_last()).push(times.last())
        } else {
            self.accepted(times.drop_last())
        }
    }

    /// The queue holds no more than `max_requests` instants.
    pub open spec fn well_formed(self) -> bool {
        self.requests.len() <= self.max_requests
    }
}

impl View for RateLimiter {
    type V = RateLimiterView;

    closed spec fn view(&self) -> RateLimiterView {
        RateLimiterView {
            window: self.window_size,
            max_requests: self.max_requests,
            requests: self.requests@,
        }
    }
}

pub proof fn lemma_stale_end(requests: Seq<Timestamp>, window: Duration, now: Timestamp, from: int)
    requires
        0 <= from <= requests.len(),
    ensures
        from <= stale_end(requests, window, now, from) <= requests.len(),
        forall|i: int|
            from <= i < stale_end(requests, window, now, from) ==> is_stale(
                #[trigger] requests[i],
                window,
                now,
            ),
        stale_end(requests, window, now, from) < requests.len() ==> !is_stale(
            requests[stale_end(requests, window, now, from)],
            window,
            now,
        ),
    decreases requests.len() - from,
{
    if from < requests.len() && is_stale(requests[from], window, now) {
        lemma_stale_end(requests, window, now, from + 1);
    }
}

/// What pruning keeps: exactly the instants of a chronological queue that
/// are not stale.
proof fn lemma_pruned_keeps_fresh(limiter: RateLimiterView, now: Timestamp)
    requires
        chronological(limiter.requests),
    ensures
        chronological(limiter.pruned(now)),
        limiter.pruned(now).len() <= limiter.requests.len(),
        forall|t: Timestamp|
            limiter.pruned(now).contains(t) <==> limiter.requests.contains(t) && !is_stale(
                t,
                limiter.window,
                now,
            ),
{
    let all = limiter.requests;
    let cut = stale_end(all, limiter.window, now, 0);
    let kept = limiter.pruned(now);
    lemma_stale_end(all, limiter.window, now, 0);
    assert forall|i: int, j: int| 0 <= i <= j < kept.len() implies (#[trigger] kept[i]).as_nanos() <= (
    #[trigger] kept[j]).as_nanos() by {
        assert(kept[i] == all[cut + i] && kept[j] == all[cut + j]);
    }
    assert forall|t: Timestamp| kept.contains(t) implies all.contains(t) && !is_stale(
        t,
        limiter.window,
        now,
    ) by {
        let i = choose|i: int| 0 <= i < kept.len() && kept[i] == t;
        assert(kept[i] == all[cut + i]);
        assert(all[cut].as_nanos() <= all[cut + i].as_nanos());
    }
    assert forall|t: Timestamp| all.contains(t) && !is_stale(t, limiter.window, now) implies kept.contains(
        t,
    ) by {
        let i = choose|i: int| 0 <= i < all.len() && all[i] == t;
        assert(i >= cut);
        assert(kept[i - cut] == t);
    }
}

/// Checks at instants that never go back, on a limiter with an empty
/// queue and a window that is not negative. Afterwards the queue is in
/// chronological order, holds no more than `max_requests` instants, none of
/// them later than the last check, and holds exactly the accepted instants
/// that are not stale at the last check.
pub proof fn lemma_checks_record_accepted_in_window(start: RateLimiterView, times: Seq<Timestamp>)
    requires
        start.requests.len() == 0,
        start.window.as_nanos() >= 0,
        chronological(times),
    ensures
        start.checked_all(times).window == start.window,
        start.checked_all(times).max_requests == start.max_requests,
        start.checked_all(times).requests.len() <= start.max_requests,
        chronological(start.checked_all(times).requests),
        times.len() == 0 ==> start.accepted(times).len() == 0 && start.checked_all(
            times,
        ).requests.len() == 0,
        times.len() > 0 ==> forall|i: int|
            0 <= i < start.checked_all(times).requests.len() ==> (#[trigger] start.checked_all(
                times,
            ).requests[i]).as_nanos() <= times.last().as_nanos(),
        times.len() > 0 ==> forall|t: Timestamp|
            start.checked_all(times).requests.contains(t) <==> start.accepted(times).contains(t)
                && !is_stale(t, start.window, times.last()),
    decreases times.len(),
{
    if times.len() > 0 {
        let earlier = times.drop_last();
        let now = times.last();
        assert forall|i: int, j: int| 0 <= i <= j < earlier.len() implies (#[trigger] earlier[i]).as_nanos()
            <= (#[trigger] earlier[j]).as_nanos() by {
            assert(earlier[i] == times[i] && earlier[j] == times[j]);
        }
        lemma_checks_record_accepted_in_window(start, earlier);
        let mid = start.checked_all(earlier);
        let end = start.checked_all(times);
        let kept = mid.pruned(now);
        lemma_pruned_keeps_fresh(mid, now);
        if earlier.len() > 0 {
            assert(earlier.last() == times[times.len() - 2]);
            assert(earlier.last().as_nanos() <= now.as_nanos());
        }
        assert forall|i: int| 0 <= i < kept.len() implies (#[trigger] kept[i]).as_nanos() <= now.as_nanos() by {
            let cut = stale_end(mid.requests, mid.window, now, 0);
            lemma_stale_end(mid.requests, mid.window, now, 0);
            assert(kept[i] == mid.requests[cut + i]);
            assert(earlier.len() > 0);
            assert(mid.requests[cut + i].as_nanos() <= earlier.last().as_nanos());
        }
        assert forall|i: int| 0 <= i < end.requests.len() implies (#[trigger] end.requests[i]).as_nanos()
            <= now.as_nanos() by {
            if i < kept.len() {
                assert(end.requests[i] == kept[i]);
            }
        }
        assert forall|i: int, j: int| 0 <= i <= j < end.requests.len() implies (
        #[trigger] end.requests[i]).as_nanos() <= (#[trigger] end.requests[j]).as_nanos() by {
            if j < kept.len() {
                assert(end.requests[i] == kept[i] && end.requests[j] == kept[j]);
            }
        }
        let before = start.accepted(earlier);
        let after = start.accepted(times);
        assert forall|t: Timestamp|
            end.requests.contains(t) <==> after.contains(t) && !is_stale(t, start.window, now) by {
            if end.requests.contains(t) {
                let i = choose|i: int| 0 <= i < end.requests.len() && end.requests[i] == t;
                if i < kept.len() {
                    assert(kept[i] == t);
                    assert(kept.contains(t));
                    assert(before.contains(t));
                    let k = choose|k: int| 0 <= k < before.len() && before[k] == t;
                    assert(after[k] == t);
                } else {
                    assert(t == now);
                    assert(after[before.len() as int] == t);
                }
            }
            if after.contains(t) && !is_stale(t, start.window, now) {
                let k = choose|k: int| 0 <= k < after.len() && after[k] == t;
                if k < before.len() {
                    assert(before[k] == t);
                    assert(before.contains(t));
                    assert(earlier.len() > 0);
                    assert(!is_stale(t, start.window, earlier.last()));
                    assert(mid.requests.contains(t));
                    assert(kept.contains(t));
                    let i = choose|i: int| 0 <= i < kept.len() && kept[i] == t;
                    assert(end.requests[i] == t);
                } else {
                    assert(mid.admits(now));
                    assert(end.requests[kept.len() as int] == t);
                }
            }
        }
    }
}

/// The message of a refused check.
pub open spec fn rate_limit_message() -> Seq<char> {
    "Rate limit exceeded"@
}

impl RateLimiter {
    #[verifier::type_invariant]
    closed spec fn bounded(&self) -> bool {
        self.requests@.len() <= self.max_requests
    }

    /// A limiter that accepts `max_requests_per_minute` requests within
    /// any window of one minute.
    pub fn new(max_requests_per_minute: u32) -> (limiter: Self)
        ensures
            limiter@.window == (Duration { secs: 60, nanos: 0 }),
            limiter@.max_requests == max_requests_per_minute,
            limiter@.requests.len() == 0,
            limiter@.well_formed(),
    {
        Self {
            window_size: Duration::minutes(1),
            max_requests: max_requests_per_minute,
            requests: VecDeque::new(),
        }
    }

    /// A check at `now`. Instants that lie strictly before `now` minus the
    /// window leave from the front of the queue. If `max_requests` or more
    /// are left, the request is refused and nothing is recorded; otherwise
    /// `now` is recorded and the request accepted.
    pub fn check_limit_at(&mut self, now: Timestamp) -> (result: Result<(), String>)
        ensures
            final(self)@ == old(self)@.checked(now),
            result is Ok <==> old(self)@.admits(now),
            result matches Err(message) ==> message@ == rate_limit_message(),
            old(self)@.well_formed(),
            final(self)@.well_formed(),
    {
        proof {
            use_type_invariant(&*self);
        }
        let cutoff: i128 = now.to_nanos() - self.window_size.to_nanos();
        let ghost before = self@.requests;
        let ghost window = self@.window;
        let ghost mut dropped: int = 0;
        let mut queue: VecDeque<Timestamp> = VecDeque::new();
        core::mem::swap(&mut self.requests, &mut queue);
        while queue.len() > 0 && queue[0].to_nanos() < cutoff
            invariant
                cutoff == now.as_nanos() - window.as_nanos(),
                0 <= dropped <= before.len(),
                queue@ == before.skip(dropped),
                stale_end(before, window, now, 0) == stale_end(before, window, now, dropped),
            decreases queue@.len(),
        {
            assert(before.skip(dropped)[0] == before[dropped]);
            queue.pop_front();
            proof {
                dropped = dropped + 1;
            }
            assert(queue@ =~= before.skip(dropped));
        }
        proof {
            if queue@.len() > 0 {
                assert(before.skip(dropped)[0] == before[dropped]);
            }
            assert(dropped == stale_end(before, window, now, 0));
        }
        if queue.len() >= self.max_requests as usize {
            core::mem::swap(&mut self.requests, &mut queue);
            return Err("Rate limit exceeded".to_string());
        }
        queue.push_back(now);
        core::mem::swap(&mut self.requests, &mut queue);
        Ok(())
    }

    /// A check at the instant of the system clock.
    pub fn check_limit(&mut self) -> (result: Result<(), String>)
        ensures
            exists|now: Timestamp|
                now.within_clock_range() && final(self)@ == #[trigger] old(self)@.checked(now)
                    && (result is Ok <==> old(self)@.admits(now)),
            result matches Err(message) ==> message@ == rate_limit_message(),
            old(self)@.well_formed(),
            final(self)@.well_formed(),
    {
        let now = Timestamp::now();
        self.check_limit_at(now)
    }

    /// The number of recorded requests, as of the last check.
    pub fn get_current_count(&self) -> (count: u32)
        ensures
            count == self@.requests.len(),
            self@.well_formed(),
    {
        proof {
            use_type_invariant(self);
        }
        self.requests.len() as u32
    }
}


/// The views of a sequence of events.
pub open spec fn event_views(events: Seq<AccessEvent>) -> Seq<AccessEventView> {
    events.map_values(|e: AccessEvent| e@)
}

/// The rules that guard one credential, with the log of their decisions.
pub struct AccessPolicy {
    credential_id: String,
    allowed_tools: Vec<String>,
    allowed_users: Vec<String>,
    rate_limiter: RateLimiter,
    access_log: Vec<AccessEvent>,
}

pub struct AccessPolicyView {
    pub credential_id: Seq<char>,
    /// The tools that may reach the credential; every tool where empty.
    pub allowed_tools: Seq<Seq<char>>,
    /// The users that may reach the credential; every user where empty.
    pub allowed_users: Seq<Seq<char>>,
    pub limiter: RateLimiterView,
    /// Every decision so far, oldest first.
    pub log: Seq<AccessEventView>,
}

impl AccessPolicyView {
    /// A policy without restrictions and with an empty log.
    pub open spec fn fresh(credential_id: Seq<char>, max_accesses_per_minute: u32) -> AccessPolicyView {
        AccessPolicyView {
            credential_id,
            allowed_tools: Seq::empty(),
            allowed_users: Seq::empty(),
            limiter: RateLimiterView {
                window: Duration { secs: 60, nanos: 0 },
                max_requests: max_accesses_per_minute,
                requests: Seq::empty(),
            },
            log: Seq::empty(),
        }
    }

    pub open spec fn user_allowed(self, user: Seq<char>) -> bool {
        self.allowed_users.len() == 0 || self.allowed_users.contains(user)
    }

    pub open spec fn tool_allowed(self, tool: Seq<char>) -> bool {
        self.allowed_tools.len() == 0 || self.allowed_tools.contains(tool)
    }

    /// The decision on an access at `now`: the user is checked first, then
    /// the tool, then the rate.
    pub open spec fn status_at(self, user: Seq<char>, tool: Seq<char>, now: Timestamp) -> AccessStatus {
        if !self.user_allowed(user) || !self.tool_allowed(tool) {
            AccessStatus::Denied
        } else if !self.limiter.admits(now) {
            AccessStatus::RateLimited
        } else {
            AccessStatus::Allowed
        }
    }

    /// What the caller is told: nothing on success, and the first rule
    /// that refused otherwise.
    pub open spec fn outcome_at(self, user: Seq<char>, tool: Seq<char>, now: Timestamp) -> Result<
        (),
        Seq<char>,
    > {
        if !self.user_allowed(user) {
            Err("User not allowed"@)
        } else if !self.tool_allowed(tool) {
            Err("Tool not allowed"@)
        } else if !self.limiter.admits(now) {
            Err("Rate limit exceeded"@)
        } else {
            Ok(())
        }
    }

    /// The policy after an access at `now`: the decision joins the log, and
    /// the limiter has made its check if user and tool were allowed.
    pub open spec fn accessed(
        self,
        user: Seq<char>,
        tool: Seq<char>,
        action: AccessAction,
        now: Timestamp,
    ) -> AccessPolicyView {
        AccessPolicyView {
            credential_id: self.credential_id,
            allowed_tools: self.allowed_tools,
            allowed_users: self.allowed_users,
            limiter: if self.user_allowed(user) && self.tool_allowed(tool) {
                self.limiter.checked(now)
            } else {
                self.limiter
            },
            log: self.log.push(
                AccessEventView {
                    timestamp: now,
                    credential_id: self.credential_id,
                    action,
                    user,
                    status: self.status_at(user, tool, now),
                },
            ),
        }
    }
}

impl View for AccessPolicy {
    type V = AccessPolicyView;

    closed spec fn view(&self) -> AccessPolicyView {
        AccessPolicyView {
            credential_id: self.credential_id@,
            allowed_tools: views(self.allowed_tools@),
            allowed_users: views(self.allowed_users@),
            limiter: self.rate_limiter@,
            log: event_views(self.access_log@),
        }
    }
}

/// Whether `got` is `want`, the error taken by its text.
pub open spec fn outcome_is(got: Result<(), String>, want: Result<(), Seq<char>>) -> bool {
    match got {
        Ok(_) => want is Ok,
        Err(message) => want == Err::<(), Seq<char>>(message@),
    }
}

impl AccessPolicy {
    pub fn new(credential_id: String, max_accesses_per_minute: u32) -> (policy: Self)
        ensures
            policy@ == AccessPolicyView::fresh(credential_id@, max_accesses_per_minute),
    {
        let policy = Self {
            credential_id,
            allowed_tools: Vec::new(),
            allowed_users: Vec::new(),
            rate_limiter: RateLimiter::new(max_accesses_per_minute),
            access_log: Vec::new(),
        };
        assert(policy@.allowed_tools =~= Seq::empty());
        assert(policy@.allowed_users =~= Seq::empty());
        assert(policy@.log =~= Seq::empty());
        assert(policy@.limiter.requests =~= Seq::empty());
        policy
    }

    /// Adds `tool` to the tools that may reach the credential.
    pub fn allow_tool(&mut self, tool: String)
        ensures
            final(self)@ == (AccessPolicyView {
                allowed_tools: old(self)@.allowed_tools.push(tool@),
                ..old(self)@
            }),
    {
        self.allowed_tools.push(tool);
        assert(self@.allowed_tools =~= old(self)@.allowed_tools.push(tool@));
    }

    /// Adds `user` to the users that may reach the credential.
    pub fn allow_user(&mut self, user: String)
        ensures
            final(self)@ == (AccessPolicyView {
                allowed_users: old(self)@.allowed_users.push(user@),
                ..old(self)@
            }),
    {
        self.allowed_users.push(user);
        assert(self@.allowed_users =~= old(self)@.allowed_users.push(user@));
    }

    fn record(&mut self, user: &str, action: AccessAction, status: AccessStatus, now: Timestamp)
        ensures
            final(self)@ == (AccessPolicyView {
                log: old(self)@.log.push(
                    AccessEventView {
                        timestamp: now,
                        credential_id: old(self)@.credential_id,
                        action,
                        user: user@,
                        status,
                    },
                ),
                ..old(self)@
            }),
    {
        let event = AccessEvent {
            timestamp: now,
            credential_id: self.credential_id.clone(),
            action,
            user: user.to_string(),
            status,
        };
        self.access_log.push(event);
        assert(self@.log =~= old(self)@.log.push(event@));
    }

    /// Decides on an access by `user` through `tool` at `now` and records
    /// the decision. The user is checked first, then the tool, then the
    /// rate; the limiter is only asked where user and tool are allowed.
    pub fn check_access_at(&mut self, user: &str, tool: &str, action: AccessAction, now: Timestamp) -> (result:
        Result<(), String>)
        ensures
            final(self)@ == old(self)@.accessed(user@, tool@, action, now),
            outcome_is(result, old(self)@.outcome_at(user@, tool@, now)),
    {
        if self.allowed_users.len() > 0 && !list_contains(&self.allowed_users, user) {
            self.record(user, action, AccessStatus::Denied, now);
            return Err("User not allowed".to_string());
        }
        if self.allowed_tools.len() > 0 && !list_contains(&self.allowed_tools, tool) {
            self.record(user, action, AccessStatus::Denied, now);
            return Err("Tool not allowed".to_string());
        }
        match self.rate_limiter.check_limit_at(now) {
            Ok(_) => {
                self.record(user, action, AccessStatus::Allowed, now);
                Ok(())
            },
            Err(_) => {
                self.record(user, action, AccessStatus::RateLimited, now);
                Err("Rate limit exceeded".to_string())
            },
        }
    }

    /// Decides on an access at the instant of the system clock.
    pub fn check_access(&mut self, user: &str, tool: &str, action: AccessAction) -> (result: Result<
        (),
        String,
    >)
        ensures
            exists|now: Timestamp|
                now.within_clock_range() && final(self)@ == #[trigger] old(self)@.accessed(
                    user@,
                    tool@,
                    action,
                    now,
                ) && outcome_is(result, old(self)@.outcome_at(user@, tool@, now)),
    {
        let now = Timestamp::now();
        self.check_access_at(user, tool, action, now)
    }

    /// Every decision so far, oldest first.
    pub fn get_access_log(&self) -> (log: &[AccessEvent])
        ensures
            event_views(log@) == self@.log,
    {
        self.access_log.as_slice()
    }
}

/// The policies of all credentials, by credential.
pub struct AccessControlManager {
    policies: StringMap<AccessPolicy>,
}

/// The message for a credential without a policy.
pub open spec fn policy_not_found_message() -> Seq<char> {
    "Policy not found"@
}

/// The view of each policy of a map.
pub open spec fn policy_views(policies: Map<Seq<char>, AccessPolicy>) -> Map<
    Seq<char>,
    AccessPolicyView,
> {
    policies.map_values(|p: AccessPolicy| p@)
}

impl View for AccessControlManager {
    type V = Map<Seq<char>, AccessPolicyView>;

    closed spec fn view(&self) -> Map<Seq<char>, AccessPolicyView> {
        policy_views(self.policies@)
    }
}

impl AccessControlManager {
    pub fn new() -> (manager: Self)
        ensures
            manager@ == Map::<Seq<char>, AccessPolicyView>::empty(),
    {
        let manager = Self { policies: StringMap::new() };
        assert(manager@ =~= Map::<Seq<char>, AccessPolicyView>::empty());
        manager
    }

    /// Gives `credential_id` a fresh policy, in place of the one it had.
    pub fn create_policy(&mut self, credential_id: String, max_accesses_per_minute: u32)
        ensures
            final(self)@ == old(self)@.insert(
                credential_id@,
                AccessPolicyView::fresh(credential_id@, max_accesses_per_minute),
            ),
    {
        let policy = AccessPolicy::new(credential_id.clone(), max_accesses_per_minute);
        self.policies.insert(credential_id, policy);
        assert(self@ =~= old(self)@.insert(
            credential_id@,
            AccessPolicyView::fresh(credential_id@, max_accesses_per_minute),
        ));
    }

    /// The policy of `credential_id`, to be changed in place.
    pub fn get_policy_mut(&mut self, credential_id: &str) -> (policy: Option<&mut AccessPolicy>)
        ensures
            match policy {
                Some(p) => old(self)@.contains_key(credential_id@) && p@ == old(self)@[credential_id@]
                    && final(self)@ == old(self)@.insert(credential_id@, final(p)@),
                None => !old(self)@.contains_key(credential_id@) && final(self)@ == old(self)@,
            },
    {
        proof {
            assert forall|p: AccessPolicy| #[trigger]
                policy_views(self.policies@.insert(credential_id@, p)) == self@.insert(
                    credential_id@,
                    p@,
                ) by {
                assert(policy_views(self.policies@.insert(credential_id@, p)) =~= self@.insert(
                    credential_id@,
                    p@,
                ));
            }
        }
        self.policies.get_mut(credential_id)
    }

    /// Decides on an access to `credential_id` at `now` by its policy.
    /// Without a policy the access is refused and nothing changes.
    pub fn check_access_at(
        &mut self,
        credential_id: &str,
        user: &str,
        tool: &str,
        action: AccessAction,
        now: Timestamp,
    ) -> (result: Result<(), String>)
        ensures
            !old(self)@.contains_key(credential_id@) ==> final(self)@ == old(self)@ && (
            result matches Err(message) && message@ == policy_not_found_message()),
            old(self)@.contains_key(credential_id@) ==> final(self)@ == old(self)@.insert(
                credential_id@,
                old(self)@[credential_id@].accessed(user@, tool@, action, now),
            ) && outcome_is(result, old(self)@[credential_id@].outcome_at(user@, tool@, now)),
    {
        match self.get_policy_mut(credential_id) {
            Some(policy) => policy.check_access_at(user, tool, action, now),
            None => Err("Policy not found".to_string()),
        }
    }

    /// Decides on an access at the instant of the system clock.
    pub fn check_access(&mut self, credential_id: &str, user: &str, tool: &str, action: AccessAction) -> (result:
        Result<(), String>)
        ensures
            !old(self)@.contains_key(credential_id@) ==> final(self)@ == old(self)@ && (
            result matches Err(message) && message@ == policy_not_found_message()),
            old(self)@.contains_key(credential_id@) ==> exists|now: Timestamp|
                now.within_clock_range() && final(self)@ == old(self)@.insert(
                    credential_id@,
                    #[trigger] old(self)@[credential_id@].accessed(user@, tool@, action, now),
                ) && outcome_is(result, old(self)@[credential_id@].outcome_at(user@, tool@, now)),
    {
        let now = Timestamp::now();
        self.check_access_at(credential_id, user, tool, action, now)
    }
}

} // verus!
