//! Bot-side gatekeeping: chat authorization and per-chat rate limiting.

use std::collections::HashSet;
use std::collections::VecDeque;
use vstd::prelude::*;

verus! {

broadcast use vstd::std_specs::hash::group_hash_axioms;

/// A message is handled only in a private chat whose id is allowed.
pub fn should_handle_message(is_private: bool, chat_id: i64, allowed: &HashSet<i64>) -> (r: bool)
    ensures
        r == (is_private && allowed@.contains(chat_id)),
{
    is_private && allowed.contains(&chat_id)
}

/// A sliding one-minute window of request stamps per chat.
#[derive(Debug)]
pub struct RateLimiter {
    pub limit_per_minute: u32,
    pub timestamps_by_chat: Vec<(i64, VecDeque<i64>)>,
}

/// The window with every stamp a minute or older dropped from the front.
pub open spec fn spec_drop_old(q: Seq<i64>, now: int) -> Seq<i64>
    decreases q.len(),
{
    if q.len() > 0 && now - q[0] >= 60 {
        spec_drop_old(q.drop_first(), now)
    } else {
        q
    }
}

/// One request against one chat's window: expired stamps leave, and the
/// request is allowed — and stamped — only while the window holds fewer
/// stamps than the per-minute limit.
pub open spec fn spec_allow(q: Seq<i64>, now: int, limit: int) -> (bool, Seq<i64>) {
    let kept = spec_drop_old(q, now);
    if kept.len() >= limit {
        (false, kept)
    } else {
        (true, kept.push(now as i64))
    }
}

/// The windows reduced to chat id and stamp run.
pub open spec fn limiter_models(s: Seq<(i64, VecDeque<i64>)>) -> Seq<(i64, Seq<i64>)> {
    Seq::new(s.len(), |i: int| (s[i].0, s[i].1@))
}

/// Index of the window for `id`, or -1.
pub open spec fn spec_limiter_find(s: Seq<(i64, Seq<i64>)>, id: i64) -> int
    decreases s.len(),
{
    if s.len() == 0 {
        -1
    } else if s[0].0 == id {
        0
    } else {
        let r = spec_limiter_find(s.drop_first(), id);
        if r == -1 {
            -1
        } else {
            1 + r
        }
    }
}

/// A found index is in bounds and matches.
pub proof fn lemma_limiter_find_bounds(s: Seq<(i64, Seq<i64>)>, id: i64)
    ensures
        spec_limiter_find(s, id) == -1 || (0 <= spec_limiter_find(s, id) < s.len()
            && s[spec_limiter_find(s, id)].0 == id),
    decreases s.len(),
{
    if s.len() > 0 && s[0].0 != id {
        lemma_limiter_find_bounds(s.drop_first(), id);
        let r = spec_limiter_find(s.drop_first(), id);
        if r != -1 {
            assert(s.drop_first()[r] == s[r + 1]);
        }
    }
}

impl RateLimiter {
    /// A limiter with no recorded requests.
    pub fn new(limit_per_minute: u32) -> (r: Self)
        ensures
            r.limit_per_minute == limit_per_minute,
            r.timestamps_by_chat@.len() == 0,
    {
        RateLimiter { limit_per_minute, timestamps_by_chat: Vec::new() }
    }

    /// Finds the window for `id`.
    fn find(&self, id: i64) -> (r: Option<usize>)
        ensures
            ({
                let ti = spec_limiter_find(limiter_models(self.timestamps_by_chat@), id);
                match r {
                    Some(i) => ti == i as int && i < self.timestamps_by_chat@.len(),
                    None => ti == -1,
                }
            }),
    {
        let ghost t0 = limiter_models(self.timestamps_by_chat@);
        proof {
            assert(t0.skip(0) =~= t0);
        }
        let mut i: usize = 0;
        while i < self.timestamps_by_chat.len()
            invariant
                i <= self.timestamps_by_chat@.len(),
                t0 == limiter_models(self.timestamps_by_chat@),
                ({
                    let rest = spec_limiter_find(t0.skip(i as int), id);
                    let whole = spec_limiter_find(t0, id);
                    if rest == -1 {
                        whole == -1
                    } else {
                        whole == i + rest
                    }
                }),
            decreases self.timestamps_by_chat.len() - i,
        {
            proof {
                assert(t0.skip(i as int)[0] == t0[i as int]);
            }
            if self.timestamps_by_chat[i].0 == id {
                proof {
                    assert(spec_limiter_find(t0.skip(i as int), id) == 0);
                }
                return Some(i);
            }
            proof {
                assert(t0.skip(i as int).drop_first() =~= t0.skip(i as int + 1));
                lemma_limiter_find_bounds(t0.skip(i as int + 1), id);
            }
            i = i + 1;
        }
        proof {
            assert(t0.skip(self.timestamps_by_chat@.len() as int) =~= Seq::<(i64, Seq<i64>)>::empty());
        }
        None
    }

    /// Processes one request from `chat_id` at `now_unix`: expired stamps
    /// leave the chat's window, and the request passes — and is stamped —
    /// only while the window is under the limit. A chat without a window
    /// gets a fresh one.
    pub fn allow(&mut self, chat_id: i64, now_unix: i64) -> (r: bool)
        ensures
            ({
                let t0 = limiter_models(old(self).timestamps_by_chat@);
                let ti = spec_limiter_find(t0, chat_id);
                let q0: Seq<i64> = if ti >= 0 {
                    t0[ti].1
                } else {
                    Seq::empty()
                };
                let step = spec_allow(q0, now_unix as int, old(self).limit_per_minute as int);
                &&& r == step.0
                &&& limiter_models(final(self).timestamps_by_chat@) == (if ti >= 0 {
                    t0.update(ti, (t0[ti].0, step.1))
                } else {
                    t0.push((chat_id, step.1))
                })
            }),
            final(self).limit_per_minute == old(self).limit_per_minute,
    {
        let ghost t0 = limiter_models(self.timestamps_by_chat@);
        proof {
            lemma_limiter_find_bounds(t0, chat_id);
        }
        let found = self.find(chat_id);
        let mut q: VecDeque<i64> = VecDeque::new();
        match found {
            Some(i) => {
                let n: usize = self.timestamps_by_chat[i].1.len();
                let mut t: usize = 0;
                while t < n
                    invariant
                        found == Some(i),
                        i < self.timestamps_by_chat@.len(),
                        n == self.timestamps_by_chat@[i as int].1@.len(),
                        t <= n,
                        q@ =~= self.timestamps_by_chat@[i as int].1@.take(t as int),
                    decreases n - t,
                {
                    q.push_back(self.timestamps_by_chat[i].1[t]);
                    proof {
                        assert(q@ =~= self.timestamps_by_chat@[i as int].1@.take(t as int + 1));
                    }
                    t = t + 1;
                }
                proof {
                    assert(q@ =~= self.timestamps_by_chat@[i as int].1@);
                }
            },
            None => {},
        }
        let ghost q0: Seq<i64> = q@;
        while q.len() > 0 && (now_unix as i128) - (q[0] as i128) >= 60
            invariant
                spec_drop_old(q@, now_unix as int) == spec_drop_old(q0, now_unix as int),
            decreases q@.len(),
        {
            let _ = q.pop_front();
        }
        proof {
            assert(q@ == spec_drop_old(q0, now_unix as int));
        }
        let allowed: bool;
        if q.len() >= self.limit_per_minute as usize {
            allowed = false;
        } else {
            q.push_back(now_unix);
            allowed = true;
        }
        match found {
            Some(i) => {
                let key_keep: i64 = self.timestamps_by_chat[i].0;
                self.timestamps_by_chat.set(i, (key_keep, q));
                proof {
                    let ti = spec_limiter_find(t0, chat_id);
                    let step = spec_allow(q0, now_unix as int, self.limit_per_minute as int);
                    assert(limiter_models(self.timestamps_by_chat@) =~~= t0.update(
                        ti,
                        (t0[ti].0, step.1),
                    ));
                }
            },
            None => {
                self.timestamps_by_chat.push((chat_id, q));
                proof {
                    let step = spec_allow(q0, now_unix as int, self.limit_per_minute as int);
                    assert(limiter_models(self.timestamps_by_chat@) =~~= t0.push(
                        (chat_id, step.1),
                    ));
                }
            },
        }
        allowed
    }
}

} // verus!
