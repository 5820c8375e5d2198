use vstd::prelude::*;
use crate::error::AgentError;
use crate::text::{decimal_of, decimal_string};

verus! {

/// Thousandths of an HBD in one HBD.
pub const MILLI_PER_HBD: u64 = 1000;

/// User-facing settings and the earnings ledger. Amounts are in thousandths of an HBD.
#[derive(Clone, Debug)]
pub struct AgentConfig {
    pub hive_username: Option<String>,
    pub hive_posting_key_hash: Option<String>,
    pub auto_pin: bool,
    pub max_storage_gb: u32,
    pub auto_start: bool,
    pub total_earned_milli: u64,
    pub challenge_count: u64,
    pub last_challenge_at: Option<u64>,
    pub notify_on_challenge: bool,
    pub notify_on_milestone: bool,
    pub notify_daily_summary: bool,
}

/// The view of an optional string.
pub open spec fn opt_view(o: Option<String>) -> Option<Seq<char>> {
    match o {
        Some(s) => Some(s@),
        None => None,
    }
}

/// The settings of a fresh install: nothing earned, no account, pinning and all
/// notifications on, autostart off, a 50 GB quota.
pub open spec fn is_default_config(c: AgentConfig) -> bool {
    &&& c.hive_username is None
    &&& c.hive_posting_key_hash is None
    &&& c.auto_pin
    &&& c.max_storage_gb == 50
    &&& !c.auto_start
    &&& c.total_earned_milli == 0
    &&& c.challenge_count == 0
    &&& c.last_challenge_at is None
    &&& c.notify_on_challenge
    &&& c.notify_on_milestone
    &&& c.notify_daily_summary
}

impl Default for AgentConfig {
    fn default() -> (r: Self)
        ensures
            is_default_config(r),
    {
        AgentConfig {
            hive_username: None,
            hive_posting_key_hash: None,
            auto_pin: true,
            max_storage_gb: 50,
            auto_start: false,
            total_earned_milli: 0,
            challenge_count: 0,
            last_challenge_at: None,
            notify_on_challenge: true,
            notify_on_milestone: true,
            notify_daily_summary: true,
        }
    }
}

/// A partial update of the settings: absent fields stay as they are.
#[derive(Clone, Debug)]
pub struct UpdateConfigRequest {
    pub hive_username: Option<String>,
    pub hive_posting_key_hash: Option<String>,
    pub auto_pin: Option<bool>,
    pub max_storage_gb: Option<u32>,
    pub auto_start: Option<bool>,
    pub notify_on_challenge: Option<bool>,
    pub notify_on_milestone: Option<bool>,
    pub notify_daily_summary: Option<bool>,
}

/// A text setting after an update: an absent field keeps it, an empty one clears it.
pub open spec fn text_update(current: Option<Seq<char>>, requested: Option<Seq<char>>) -> Option<Seq<char>> {
    match requested {
        None => current,
        Some(s) => if s.len() == 0 { None } else { Some(s) },
    }
}

/// A flag or number after an update: an absent field keeps it.
pub open spec fn value_update<T>(current: T, requested: Option<T>) -> T {
    match requested {
        None => current,
        Some(v) => v,
    }
}

fn apply_text(current: Option<String>, requested: &Option<String>) -> (r: Option<String>)
    ensures
        opt_view(r) == text_update(opt_view(current), opt_view(*requested)),
{
    match requested {
        None => current,
        Some(s) => {
            if s.unicode_len() == 0 {
                None
            } else {
                Some(s.clone())
            }
        },
    }
}

/// The cumulative earnings, in thousandths, at which a milestone is reached.
pub open spec fn milestones() -> Seq<u64> {
    seq![1000, 10000, 50000, 100000, 500000, 1000000]
}

/// The breakpoints of `bs` that a total moving from `before` to `after` passes:
/// above `before` and at most `after`, in ascending order.
pub open spec fn crossed(bs: Seq<u64>, before: u64, after: u64) -> Seq<u64>
    decreases bs.len(),
{
    if bs.len() == 0 {
        Seq::empty()
    } else if before < bs.last() && bs.last() <= after {
        crossed(bs.drop_last(), before, after).push(bs.last())
    } else {
        crossed(bs.drop_last(), before, after)
    }
}

proof fn lemma_crossed_contains(bs: Seq<u64>, before: u64, after: u64, b: u64)
    ensures
        crossed(bs, before, after).contains(b) <==> (bs.contains(b) && before < b && b <= after),
    decreases bs.len(),
{
    if bs.len() > 0 {
        lemma_crossed_contains(bs.drop_last(), before, after, b);
        if bs.contains(b) && b != bs.last() {
            let k = choose|k: int| 0 <= k < bs.len() && bs[k] == b;
            assert(bs.drop_last()[k] == b);
        }
        if bs.drop_last().contains(b) {
            let k = choose|k: int| 0 <= k < bs.len() - 1 && bs.drop_last()[k] == b;
            assert(bs[k] == b);
        }
        if crossed(bs, before, after).contains(b) && before < bs.last() && bs.last() <= after {
            let c = crossed(bs.drop_last(), before, after);
            if b != bs.last() {
                let k = choose|k: int| 0 <= k < c.len() + 1 && c.push(bs.last())[k] == b;
                assert(c[k] == b);
            }
        }
        if before < bs.last() && bs.last() <= after {
            let c = crossed(bs.drop_last(), before, after);
            if c.contains(b) {
                let k = choose|k: int| 0 <= k < c.len() && c[k] == b;
                assert(c.push(bs.last())[k] == b);
            }
            if b == bs.last() {
                assert(c.push(bs.last())[c.len() as int] == b);
            }
        }
        if b == bs.last() {
            assert(bs[bs.len() - 1] == b);
        }
    }
}

/// The milestones that a total moving from `before` to `after` passes, one per breakpoint.
pub fn milestones_crossed(before: u64, after: u64) -> (r: Vec<u64>)
    ensures
        r@ == crossed(milestones(), before, after),
{
    let bs: Vec<u64> = vec![1000, 10000, 50000, 100000, 500000, 1000000];
    assert(bs@ =~= milestones());
    let mut r: Vec<u64> = Vec::new();
    let mut i: usize = 0;
    assert(bs@.take(0) =~= Seq::<u64>::empty());
    while i < bs.len()
        invariant
            bs@ == milestones(),
            i <= bs.len(),
            r@ == crossed(bs@.take(i as int), before, after),
        decreases bs.len() - i,
    {
        let b = bs[i];
        assert(bs@.take(i + 1).drop_last() =~= bs@.take(i as int));
        assert(bs@.take(i + 1).last() == b);
        if before < b && b <= after {
            r.push(b);
        }
        i = i + 1;
    }
    assert(bs@.take(i as int) =~= bs@);
    r
}

/// The later of two instants.
pub open spec fn later_of(a: u64, b: u64) -> u64 {
    if a >= b { a } else { b }
}

/// The ledger after a valid addition of `amount` at `now`, with the challenge's own
/// time `timestamp` where it was given.
pub open spec fn with_earnings(c: AgentConfig, amount: int, timestamp: Option<u64>, now: u64) -> AgentConfig {
    AgentConfig {
        total_earned_milli: (c.total_earned_milli + amount) as u64,
        challenge_count: (c.challenge_count + 1) as u64,
        last_challenge_at: Some(
            match timestamp {
                Some(t) => later_of(t, now),
                None => now,
            },
        ),
        ..c
    }
}

/// An addition fits: the new total and count stay within 64 bits.
pub open spec fn addition_fits(c: AgentConfig, amount: int) -> bool {
    c.total_earned_milli + amount <= u64::MAX && c.challenge_count + 1 <= u64::MAX
}

/// What an accepted addition leads to: the new totals, whether to notify of the challenge,
/// and the milestones to notify of.
pub struct EarningsUpdate {
    pub total_earned_milli: u64,
    pub challenge_count: u64,
    pub notify_challenge: bool,
    pub milestones: Vec<u64>,
}

impl AgentConfig {
    /// Applies a partial update: each field given replaces the current one, an empty account
    /// name or key hash clears it; the ledger is left alone.
    pub fn update_config(&mut self, req: &UpdateConfigRequest)
        ensures
            opt_view(final(self).hive_username) == text_update(opt_view(old(self).hive_username), opt_view(req.hive_username)),
            opt_view(final(self).hive_posting_key_hash) == text_update(
                opt_view(old(self).hive_posting_key_hash),
                opt_view(req.hive_posting_key_hash),
            ),
            final(self).auto_pin == value_update(old(self).auto_pin, req.auto_pin),
            final(self).max_storage_gb == value_update(old(self).max_storage_gb, req.max_storage_gb),
            final(self).auto_start == value_update(old(self).auto_start, req.auto_start),
            final(self).notify_on_challenge == value_update(old(self).notify_on_challenge, req.notify_on_challenge),
            final(self).notify_on_milestone == value_update(old(self).notify_on_milestone, req.notify_on_milestone),
            final(self).notify_daily_summary == value_update(old(self).notify_daily_summary, req.notify_daily_summary),
            final(self).total_earned_milli == old(self).total_earned_milli,
            final(self).challenge_count == old(self).challenge_count,
            final(self).last_challenge_at == old(self).last_challenge_at,
    {
        let username = self.hive_username.clone();
        self.hive_username = apply_text(username, &req.hive_username);
        let key_hash = self.hive_posting_key_hash.clone();
        self.hive_posting_key_hash = apply_text(key_hash, &req.hive_posting_key_hash);
        if let Some(v) = req.auto_pin {
            self.auto_pin = v;
        }
        if let Some(v) = req.max_storage_gb {
            self.max_storage_gb = v;
        }
        if let Some(v) = req.auto_start {
            self.auto_start = v;
        }
        if let Some(v) = req.notify_on_challenge {
            self.notify_on_challenge = v;
        }
        if let Some(v) = req.notify_on_milestone {
            self.notify_on_milestone = v;
        }
        if let Some(v) = req.notify_daily_summary {
            self.notify_daily_summary = v;
        }
    }

    /// Adds the reward of one challenge. A negative amount is refused, as is one that would
    /// overflow the ledger, and the ledger is then unchanged. Otherwise the total grows by the
    /// amount, the count by one, the last challenge time becomes the later of `timestamp` and
    /// `now`, and each milestone that the total passed is reported once, where milestone
    /// notifications are on.
    pub fn add_earnings(&mut self, amount_milli: i64, timestamp: Option<u64>, now: u64) -> (r: Result<EarningsUpdate, AgentError>)
        ensures
            amount_milli < 0 ==> (r matches Err(AgentError::Validation(m)) && m@ == "Amount cannot be negative"@),
            amount_milli >= 0 && !addition_fits(*old(self), amount_milli as int) ==> (r matches Err(e) && e is Validation),
            r is Err ==> *final(self) == *old(self),
            amount_milli >= 0 && addition_fits(*old(self), amount_milli as int) ==> r is Ok,
            r matches Ok(u) ==> {
                &&& *final(self) == with_earnings(*old(self), amount_milli as int, timestamp, now)
                &&& u.total_earned_milli == final(self).total_earned_milli
                &&& u.challenge_count == final(self).challenge_count
                &&& u.notify_challenge == old(self).notify_on_challenge
                &&& u.milestones@ == (if old(self).notify_on_milestone {
                    crossed(milestones(), old(self).total_earned_milli, final(self).total_earned_milli)
                } else {
                    Seq::empty()
                })
            },
    {
        if amount_milli < 0 {
            return Err(AgentError::Validation(String::from_str("Amount cannot be negative")));
        }
        let amount = amount_milli as u64;
        if self.total_earned_milli > u64::MAX - amount || self.challenge_count == u64::MAX {
            return Err(AgentError::Validation(String::from_str("The ledger cannot hold this amount")));
        }
        let before = self.total_earned_milli;
        self.total_earned_milli = before + amount;
        self.challenge_count = self.challenge_count + 1;
        let at = match timestamp {
            Some(t) => if t >= now { t } else { now },
            None => now,
        };
        self.last_challenge_at = Some(at);
        let milestones = if self.notify_on_milestone {
            milestones_crossed(before, self.total_earned_milli)
        } else {
            Vec::new()
        };
        Ok(EarningsUpdate {
            total_earned_milli: self.total_earned_milli,
            challenge_count: self.challenge_count,
            notify_challenge: self.notify_on_challenge,
            milestones,
        })
    }

    /// Average reward per challenge in thousandths, rounded down; 0 before any challenge.
    pub fn avg_per_challenge_milli(&self) -> (r: u64)
        ensures
            r == (if self.challenge_count == 0 { 0 } else { self.total_earned_milli / self.challenge_count }),
    {
        if self.challenge_count == 0 {
            0
        } else {
            self.total_earned_milli / self.challenge_count
        }
    }
}

/// A number of thousandths below one thousand, as exactly three digits.
pub open spec fn three_digits(n: nat) -> Seq<char> {
    if n < 10 {
        "00"@ + decimal_of(n)
    } else if n < 100 {
        "0"@ + decimal_of(n)
    } else {
        decimal_of(n)
    }
}

/// An amount of thousandths written as HBD with three decimals, as in `12.345 HBD`.
pub open spec fn hbd_text(milli: u64) -> Seq<char> {
    decimal_of((milli / MILLI_PER_HBD) as nat) + "."@ + three_digits((milli % MILLI_PER_HBD) as nat) + " HBD"@
}

/// Writes an amount of thousandths as HBD with three decimals.
pub fn format_hbd(milli: u64) -> (r: String)
    ensures
        r@ == hbd_text(milli),
{
    let mut s = decimal_string(milli / MILLI_PER_HBD);
    s.append(".");
    let frac = milli % MILLI_PER_HBD;
    if frac < 10 {
        s.append("00");
    } else if frac < 100 {
        s.append("0");
    }
    let f = decimal_string(frac);
    s.append(f.as_str());
    s.append(" HBD");
    s
}

/// Milestones: an addition that takes the total from below two breakpoints to at or above
/// both reports each of them, not only the higher one; and no breakpoint outside the range
/// passed is reported.
pub proof fn law_milestone_multiplicity(before: u64, after: u64, b1: u64, b2: u64, b: u64)
    requires
        milestones().contains(b1),
        milestones().contains(b2),
        before < b1,
        b1 < b2,
        b2 <= after,
    ensures
        crossed(milestones(), before, after).contains(b1),
        crossed(milestones(), before, after).contains(b2),
        crossed(milestones(), before, after).contains(b) ==> before < b && b <= after,
{
    lemma_crossed_contains(milestones(), before, after, b1);
    lemma_crossed_contains(milestones(), before, after, b2);
    lemma_crossed_contains(milestones(), before, after, b);
}

} // verus!
