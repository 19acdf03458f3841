//! The watchdog policy: counting monitor exits per workspace and deciding
//! when to restart and when to give up. The thread that sleeps, polls child
//! processes and takes the state lock lives outside; every decision it acts
//! on is made here.

use vstd::prelude::*;
use crate::model::str_eq;
use crate::MAX_MONITOR_FAILURES;

verus! {

/// How long the watchdog waits before its next round: the full period, or a
/// short backoff when the state lock was busy.
pub const DEFAULT_WATCHDOG_INTERVAL_SECONDS: u64 = 60;

pub const WATCHDOG_BACKOFF_SECONDS: u64 = 30;

/// What to do about a monitor that exited.
pub enum RestartDecision {
    /// Fewer than `MAX_MONITOR_FAILURES` exits so far: restart it.
    Restart,
    /// This exit reaches the threshold: log once, never restart again.
    ThresholdReached,
    /// The threshold was already reached earlier: stay silent.
    GivenUp,
}

/// The per-workspace failure counters.
pub struct Watchdog {
    failures: Vec<(String, u64)>,
}

/// The failure count recorded for `name`: the first entry's count, or zero.
pub open spec fn spec_count(s: Seq<(Seq<char>, u64)>, name: Seq<char>) -> u64
    decreases s.len(),
{
    if s.len() == 0 {
        0u64
    } else if s[0].0 == name {
        s[0].1
    } else {
        spec_count(s.drop_first(), name)
    }
}

/// A count one higher, stopping at the top of the type.
pub open spec fn bumped(c: u64) -> u64 {
    if c == u64::MAX {
        c
    } else {
        (c + 1) as u64
    }
}

impl View for Watchdog {
    type V = Seq<(Seq<char>, u64)>;

    closed spec fn view(&self) -> Seq<(Seq<char>, u64)> {
        self.failures@.map_values(|p: (String, u64)| (p.0@, p.1))
    }
}

impl Watchdog {
    pub open spec fn wf(&self) -> bool {
        forall|i: int, j: int| 0 <= i < j < self@.len() ==> self@[i].0 != self@[j].0
    }

    /// A fresh watchdog: no failures recorded.
    pub fn init() -> (r: Watchdog)
        ensures
            r@ == Seq::<(Seq<char>, u64)>::empty(),
            r.wf(),
    {
        let r = Watchdog { failures: Vec::new() };
        proof {
            assert(r@ =~= Seq::<(Seq<char>, u64)>::empty());
        }
        r
    }

    /// The failure count recorded for `name`.
    pub fn count_of(&self, name: &String) -> (r: u64)
        ensures
            r == spec_count(self@, name@),
    {
        let n = self.failures.len();
        let mut i: usize = 0;
        proof {
            assert(self@.skip(0) =~= self@);
        }
        while i < n
            invariant
                i <= n,
                n == self.failures.len(),
                spec_count(self@, name@) == spec_count(self@.skip(i as int), name@),
            decreases n - i,
        {
            proof {
                assert(self@.skip(i as int)[0] == self@[i as int]);
                assert(self@[i as int] == (self.failures@[i as int].0@, self.failures@[i as int].1));
                assert(self@.skip(i as int).drop_first() =~= self@.skip(i as int + 1));
            }
            if str_eq(&self.failures[i].0, name) {
                return self.failures[i].1;
            }
            i = i + 1;
        }
        proof {
            assert(self@.skip(n as int) =~= Seq::<(Seq<char>, u64)>::empty());
        }
        0
    }

    /// Counts one observed exit of `name`'s monitor and decides what to do:
    /// restart while the new count is under the threshold, log-and-stop when
    /// it reaches the threshold exactly, stay silent afterwards.
    pub fn record_exit(&mut self, name: &String) -> (d: RestartDecision)
        requires
            old(self).wf(),
        ensures
            final(self).wf(),
            spec_count(final(self)@, name@) == bumped(spec_count(old(self)@, name@)),
            forall|m: Seq<char>|
                m != name@ ==> spec_count(final(self)@, m) == spec_count(old(self)@, m),
            (d is Restart) == (bumped(spec_count(old(self)@, name@)) < MAX_MONITOR_FAILURES),
            (d is ThresholdReached) == (bumped(spec_count(old(self)@, name@))
                == MAX_MONITOR_FAILURES),
            (d is GivenUp) == (bumped(spec_count(old(self)@, name@)) > MAX_MONITOR_FAILURES),
    {
        let ghost s = self@;
        let old_count = self.count_of(name);
        let new_count = if old_count == u64::MAX {
            old_count
        } else {
            old_count + 1
        };
        let idx = self.find_index(name);
        match idx {
            Option::Some(i) => {
                let entry = self.failures.remove(i);
                self.failures.insert(i, (entry.0, new_count));
                proof {
                    assert(self@ =~= s.update(i as int, (name@, new_count)));
                    lemma_count_update(s, i as int, name@, new_count);
                    assert forall|m: Seq<char>| m != name@ implies spec_count(self@, m)
                        == spec_count(s, m) by {
                        lemma_count_update_other(s, i as int, name@, new_count, m);
                    }
                }
            },
            Option::None => {
                self.failures.push((name.clone(), new_count));
                proof {
                    assert(self@ =~= s.push((name@, new_count)));
                    lemma_count_push(s, name@, new_count);
                    assert forall|m: Seq<char>| m != name@ implies spec_count(self@, m)
                        == spec_count(s, m) by {
                        lemma_count_push_other(s, name@, new_count, m);
                    }
                }
            },
        }
        if new_count < MAX_MONITOR_FAILURES {
            RestartDecision::Restart
        } else if new_count == MAX_MONITOR_FAILURES {
            RestartDecision::ThresholdReached
        } else {
            RestartDecision::GivenUp
        }
    }

    /// Index of the entry for `name`, if one exists.
    fn find_index(&self, name: &String) -> (r: Option<usize>)
        requires
            self.wf(),
        ensures
            match r {
                Option::Some(i) => i < self@.len() && self@[i as int].0 == name@
                    && self@[i as int].1 == spec_count(self@, name@),
                Option::None => forall|k: int| 0 <= k < self@.len() ==> self@[k].0 != name@,
            },
    {
        let n = self.failures.len();
        let mut i: usize = 0;
        while i < n
            invariant
                i <= n,
                n == self.failures.len(),
                self.wf(),
                forall|k: int| 0 <= k < i as int ==> self@[k].0 != name@,
            decreases n - i,
        {
            proof {
                assert(self@[i as int] == (self.failures@[i as int].0@, self.failures@[i as int].1));
            }
            if str_eq(&self.failures[i].0, name) {
                proof {
                    lemma_count_found(self@, i as int, name@);
                }
                return Option::Some(i);
            }
            i = i + 1;
        }
        Option::None
    }
}

/// In a table with distinct names, the count of a present name is the count
/// stored at its index.
proof fn lemma_count_found(s: Seq<(Seq<char>, u64)>, i: int, name: Seq<char>)
    requires
        0 <= i < s.len(),
        s[i].0 == name,
        forall|k: int| 0 <= k < i ==> s[k].0 != name,
    ensures
        spec_count(s, name) == s[i].1,
    decreases i,
{
    if i > 0 {
        assert(s.drop_first()[i - 1] == s[i]);
        assert forall|k: int| 0 <= k < i - 1 implies s.drop_first()[k].0 != name by {
            assert(s.drop_first()[k] == s[k + 1]);
        }
        lemma_count_found(s.drop_first(), i - 1, name);
    }
}

proof fn lemma_count_update(s: Seq<(Seq<char>, u64)>, i: int, name: Seq<char>, c: u64)
    requires
        0 <= i < s.len(),
        forall|k: int| 0 <= k < i ==> s[k].0 != name,
    ensures
        spec_count(s.update(i, (name, c)), name) == c,
    decreases i,
{
    let t = s.update(i, (name, c));
    if i == 0 {
        assert(t[0] == (name, c));
    } else {
        assert(t[0] == s[0]);
        assert(t.drop_first() =~= s.drop_first().update(i - 1, (name, c)));
        lemma_count_update(s.drop_first(), i - 1, name, c);
    }
}

proof fn lemma_count_update_other(s: Seq<(Seq<char>, u64)>, i: int, name: Seq<char>, c: u64, m: Seq<char>)
    requires
        0 <= i < s.len(),
        s[i].0 == name,
        m != name,
    ensures
        spec_count(s.update(i, (name, c)), m) == spec_count(s, m),
    decreases i,
{
    let t = s.update(i, (name, c));
    if i == 0 {
        assert(t[0] == (name, c));
        assert(t.drop_first() =~= s.drop_first());
    } else {
        assert(t[0] == s[0]);
        assert(t.drop_first() =~= s.drop_first().update(i - 1, (name, c)));
        lemma_count_update_other(s.drop_first(), i - 1, name, c, m);
    }
}

proof fn lemma_count_push(s: Seq<(Seq<char>, u64)>, name: Seq<char>, c: u64)
    requires
        forall|k: int| 0 <= k < s.len() ==> s[k].0 != name,
    ensures
        spec_count(s.push((name, c)), name) == c,
    decreases s.len(),
{
    let t = s.push((name, c));
    if s.len() == 0 {
        assert(t[0] == (name, c));
    } else {
        assert(t[0] == s[0]);
        assert(t.drop_first() =~= s.drop_first().push((name, c)));
        assert forall|k: int| 0 <= k < s.drop_first().len() implies s.drop_first()[k].0 != name by {
            assert(s.drop_first()[k] == s[k + 1]);
        }
        lemma_count_push(s.drop_first(), name, c);
    }
}

proof fn lemma_count_push_other(s: Seq<(Seq<char>, u64)>, name: Seq<char>, c: u64, m: Seq<char>)
    requires
        m != name,
    ensures
        spec_count(s.push((name, c)), m) == spec_count(s, m),
    decreases s.len(),
{
    let t = s.push((name, c));
    if s.len() == 0 {
        assert(t[0] == (name, c));
        assert(t.drop_first() =~= Seq::<(Seq<char>, u64)>::empty());
        assert(spec_count(Seq::<(Seq<char>, u64)>::empty(), m) == 0);
        assert(spec_count(t.drop_first(), m) == 0);
        assert(spec_count(s, m) == 0);
    } else {
        assert(t[0] == s[0]);
        assert(t.drop_first() =~= s.drop_first().push((name, c)));
        lemma_count_push_other(s.drop_first(), name, c, m);
    }
}

/// How long to sleep before the next round: back off when the state lock was
/// held by another worker, otherwise wait a full period.
pub fn next_poll_delay(lock_busy: bool) -> (r: u64)
    ensures
        r == (if lock_busy {
            WATCHDOG_BACKOFF_SECONDS
        } else {
            DEFAULT_WATCHDOG_INTERVAL_SECONDS
        }),
{
    if lock_busy {
        WATCHDOG_BACKOFF_SECONDS
    } else {
        DEFAULT_WATCHDOG_INTERVAL_SECONDS
    }
}

} // verus!
