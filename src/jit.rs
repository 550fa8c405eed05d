//! Just-in-time tuning: keys get a channel when they are pressed. On each channel a group of
//! notes (see [`Group`]) holds at most one sounding key, so that each key can be tuned on its
//! own; when no channel is free, the pooling mode decides.
use vstd::prelude::*;

use crate::aot::{group_of, group_value, Group, KeyLocation};
use crate::pitch::{detuning_of, nearest_note, note_of, valid_pitch};

verus! {

/// What to do with a key when every channel already sounds a key of its group.
#[derive(Clone, Copy, Debug, PartialEq, Eq, Structural)]
pub enum PoolingMode {
    /// Do not accept the new key; it stays silent.
    Block,
    /// Stop the key of that group that has held its channel longest, and take its channel.
    Stop,
    /// Take that channel too but leave its key sounding; it takes the new tuning.
    Ignore,
}

#[derive(Clone, Copy, Debug, PartialEq, Eq, Structural)]
pub enum RegisterKeyResult {
    Accepted { channel: usize, stopped_note: Option<i64>, started_note: i64, detuning: i64 },
    Rejected,
}

#[derive(Clone, Copy, Debug, PartialEq, Eq, Structural)]
pub enum AccessKeyResult {
    Found { channel: usize, found_note: i64 },
    NotFound,
}

pub open spec fn in_group(g: Group, l: KeyLocation, c: int, group: int) -> bool {
    l.channel == c && group_of(g, l.note as int) == group
}

pub open spec fn occupied(active: Seq<KeyLocation>, g: Group, c: int, group: int) -> bool {
    exists|i: int| 0 <= i < active.len() && #[trigger] in_group(g, active[i], c, group)
}

/// The lowest channel from `c` on where no key of `group` sounds, or `n` if there is none.
pub open spec fn first_free_from(active: Seq<KeyLocation>, g: Group, n: int, group: int, c: int) -> int
    decreases n - c,
{
    if c >= n || c < 0 {
        n
    } else if !occupied(active, g, c, group) {
        c
    } else {
        first_free_from(active, g, n, group, c + 1)
    }
}

pub open spec fn has_key(active: Seq<KeyLocation>, key: i32) -> bool {
    exists|i: int| 0 <= i < active.len() && active[i].key == key
}

/// The index of the first entry that satisfies `in_group` for some channel, i.e. the key of
/// `group` that has held its channel longest.
pub open spec fn oldest_of_group(active: Seq<KeyLocation>, g: Group, group: int) -> int {
    choose|i: int|
        0 <= i < active.len() && group_of(g, active[i].note as int) == group && forall|j: int|
            0 <= j < i ==> group_of(g, active[j].note as int) != group
}

pub open spec fn index_of_key(active: Seq<KeyLocation>, key: i32) -> int {
    choose|i: int| 0 <= i < active.len() && active[i].key == key
}

/// The sounding keys and the result after pressing `key` at `pitch`. Entries are kept in the
/// order in which they took their channel.
pub open spec fn register_spec(
    active: Seq<KeyLocation>,
    g: Group,
    n: int,
    mode: PoolingMode,
    key: i32,
    pitch: int,
) -> (Seq<KeyLocation>, RegisterKeyResult) {
    let note = note_of(pitch);
    let d = detuning_of(pitch);
    let group = group_of(g, note);
    let c = first_free_from(active, g, n, group, 0);
    let fresh = |c: int| KeyLocation { key, channel: c as usize, note: note as i64, detuning: d as i64 };
    if has_key(active, key) {
        (active, RegisterKeyResult::Rejected)
    } else if c < n {
        (
            active.push(fresh(c)),
            RegisterKeyResult::Accepted { channel: c as usize, stopped_note: None, started_note: note as i64, detuning: d as i64 },
        )
    } else if n == 0 || mode == PoolingMode::Block {
        (active, RegisterKeyResult::Rejected)
    } else {
        evict_spec(active, g, mode, key, note, d, group)
    }
}

/// Takes the channel of the key of `group` that has held its channel longest.
pub open spec fn evict_spec(
    active: Seq<KeyLocation>,
    g: Group,
    mode: PoolingMode,
    key: i32,
    note: int,
    d: int,
    group: int,
) -> (Seq<KeyLocation>, RegisterKeyResult) {
    let v = oldest_of_group(active, g, group);
    let victim = active[v];
    let started = KeyLocation { key, channel: victim.channel, note: note as i64, detuning: d as i64 };
    let result = RegisterKeyResult::Accepted {
        channel: victim.channel,
        stopped_note: if mode == PoolingMode::Stop {
            Some(victim.note)
        } else {
            None
        },
        started_note: note as i64,
        detuning: d as i64,
    };
    if mode == PoolingMode::Stop {
        (active.remove(v).push(started), result)
    } else {
        (active.remove(v).push(victim).push(started), result)
    }
}

#[verifier::opaque]
pub open spec fn jit_wf(active: Seq<KeyLocation>, mode: PoolingMode, g: Group, n: int) -> bool {
    &&& forall|i: int|
        0 <= i < active.len() ==> {
            &&& (#[trigger] active[i]).channel < n
            &&& -67108865 <= active[i].note <= 67108865
        }
    &&& forall|i: int, j: int| 0 <= i < j < active.len() ==> active[i].key != active[j].key
    &&& mode != PoolingMode::Ignore ==> forall|i: int, j: int|
        0 <= i < j < active.len() && active[i].channel == active[j].channel ==> group_of(
            g,
            active[i].note as int,
        ) != group_of(g, active[j].note as int)
}

proof fn lemma_wf_entry(a: Seq<KeyLocation>, mode: PoolingMode, g: Group, n: int, i: int)
    requires
        jit_wf(a, mode, g, n),
        0 <= i < a.len(),
    ensures
        a[i].channel < n,
        -67108865 <= a[i].note <= 67108865,
{
    reveal(jit_wf);
}

proof fn lemma_first_free(active: Seq<KeyLocation>, g: Group, n: int, group: int, c: int)
    requires
        0 <= c <= n,
    ensures
        c <= first_free_from(active, g, n, group, c) <= n,
        first_free_from(active, g, n, group, c) < n ==> !occupied(
            active,
            g,
            first_free_from(active, g, n, group, c),
            group,
        ),
        first_free_from(active, g, n, group, c) == n ==> forall|k: int|
            c <= k < n ==> occupied(active, g, k, group),
    decreases n - c,
{
    if c < n && occupied(active, g, c, group) {
        lemma_first_free(active, g, n, group, c + 1);
    }
}

proof fn lemma_remove_wf(a0: Seq<KeyLocation>, mode: PoolingMode, g: Group, n: int, v: int)
    requires
        jit_wf(a0, mode, g, n),
        0 <= v < a0.len(),
    ensures
        jit_wf(a0.remove(v), mode, g, n),
{
    reveal(jit_wf);
    let a1 = a0.remove(v);
    assert forall|p: int| 0 <= p < a1.len() implies (#[trigger] a1[p]).channel < n && -67108865
        <= a1[p].note <= 67108865 by {
        let pp = if p < v { p } else { p + 1 };
        assert(a1[p] == a0[pp]);
    }
    assert forall|p: int, q: int| 0 <= p < q < a1.len() implies a1[p].key != a1[q].key by {
        let pp = if p < v { p } else { p + 1 };
        let qq = if q < v { q } else { q + 1 };
        assert(a1[p] == a0[pp]);
        assert(a1[q] == a0[qq]);
    }
    if mode != PoolingMode::Ignore {
        assert forall|p: int, q: int|
            0 <= p < q < a1.len() && a1[p].channel == a1[q].channel implies group_of(
            g,
            a1[p].note as int,
        ) != group_of(g, a1[q].note as int) by {
            let pp = if p < v { p } else { p + 1 };
            let qq = if q < v { q } else { q + 1 };
            assert(a1[p] == a0[pp]);
            assert(a1[q] == a0[qq]);
        }
    }
}

proof fn lemma_push_wf(a0: Seq<KeyLocation>, mode: PoolingMode, g: Group, n: int, fresh: KeyLocation)
    requires
        jit_wf(a0, mode, g, n),
        fresh.channel < n,
        -67108865 <= fresh.note <= 67108865,
        !has_key(a0, fresh.key),
        mode != PoolingMode::Ignore ==> !occupied(
            a0,
            g,
            fresh.channel as int,
            group_of(g, fresh.note as int),
        ),
    ensures
        jit_wf(a0.push(fresh), mode, g, n),
{
    reveal(jit_wf);
    let a1 = a0.push(fresh);
    assert forall|p: int, q: int| 0 <= p < q < a1.len() implies a1[p].key != a1[q].key by {
        assert(a1[p] == a0[p]);
        if q < a0.len() {
            assert(a1[q] == a0[q]);
        }
    }
    if mode != PoolingMode::Ignore {
        assert forall|p: int, q: int|
            0 <= p < q < a1.len() && a1[p].channel == a1[q].channel implies group_of(
            g,
            a1[p].note as int,
        ) != group_of(g, a1[q].note as int) by {
            assert(a1[p] == a0[p]);
            if q < a0.len() {
                assert(a1[q] == a0[q]);
            } else {
                assert(!in_group(g, a0[p], fresh.channel as int, group_of(g, fresh.note as int)));
            }
        }
    }
}

/// Removing the oldest key of a group and placing a new key of the group on its channel
/// (keeping the old key after it where the mode is `Ignore`) keeps the pool well formed.
proof fn lemma_evict(a0: Seq<KeyLocation>, mode: PoolingMode, g: Group, n: int, v: int, started: KeyLocation)
    requires
        jit_wf(a0, mode, g, n),
        0 <= v < a0.len(),
        started.channel == a0[v].channel,
        group_of(g, started.note as int) == group_of(g, a0[v].note as int),
        -67108865 <= started.note <= 67108865,
        !has_key(a0, started.key),
    ensures
        mode == PoolingMode::Stop ==> jit_wf(a0.remove(v).push(started), mode, g, n),
        mode == PoolingMode::Ignore ==> jit_wf(a0.remove(v).push(a0[v]).push(started), mode, g, n),
{
    reveal(jit_wf);
    let a1 = a0.remove(v);
    let victim = a0[v];
    let group = group_of(g, started.note as int);
    lemma_remove_wf(a0, mode, g, n, v);
    assert(!has_key(a1, started.key)) by {
        if has_key(a1, started.key) {
            let k = choose|k: int| 0 <= k < a1.len() && a1[k].key == started.key;
            let kk = if k < v { k } else { k + 1 };
            assert(a1[k] == a0[kk]);
        }
    }
    if mode == PoolingMode::Stop {
        assert(!occupied(a1, g, started.channel as int, group)) by {
            if occupied(a1, g, started.channel as int, group) {
                let k = choose|k: int| 0 <= k < a1.len() && #[trigger] in_group(g, a1[k], started.channel as int, group);
                let kk = if k < v { k } else { k + 1 };
                assert(a1[k] == a0[kk]);
                assert(a0[v].channel == a0[kk].channel);
            }
        }
        lemma_push_wf(a1, mode, g, n, started);
    }
    if mode == PoolingMode::Ignore {
        assert(!has_key(a1, victim.key)) by {
            if has_key(a1, victim.key) {
                let k = choose|k: int| 0 <= k < a1.len() && a1[k].key == victim.key;
                let kk = if k < v { k } else { k + 1 };
                assert(a1[k] == a0[kk]);
            }
        }
        lemma_push_wf(a1, mode, g, n, victim);
        assert(victim.key != started.key);
        assert(!has_key(a1.push(victim), started.key)) by {
            if has_key(a1.push(victim), started.key) {
                let k = choose|k: int| 0 <= k < a1.len() + 1 && a1.push(victim)[k].key == started.key;
                if k < a1.len() {
                    assert(a1.push(victim)[k] == a1[k]);
                }
            }
        }
        lemma_push_wf(a1.push(victim), mode, g, n, started);
    }
}

/// Tracks which key sounds on which channel.
pub struct JitTuner {
    pooling_mode: PoolingMode,
    group: Group,
    num_channels: usize,
    active: Vec<KeyLocation>,
}

impl JitTuner {
    pub closed spec fn active(&self) -> Seq<KeyLocation> {
        self.active@
    }

    pub closed spec fn mode(&self) -> PoolingMode {
        self.pooling_mode
    }

    pub closed spec fn grouping(&self) -> Group {
        self.group
    }

    pub closed spec fn channels(&self) -> nat {
        self.num_channels as nat
    }

    /// Every sounding key is on a channel of the pool, and no key sounds twice; unless the
    /// pooling mode is `Ignore`, no two keys share a group on a channel.
    pub open spec fn wf(&self) -> bool {
        jit_wf(self.active(), self.mode(), self.grouping(), self.channels() as int)
    }

    pub fn new(pooling_mode: PoolingMode, group: Group, num_channels: usize) -> (r: JitTuner)
        ensures
            r.wf(),
            r.active().len() == 0,
            r.mode() == pooling_mode,
            r.grouping() == group,
            r.channels() == num_channels,
    {
        proof {
            reveal(jit_wf);
        }
        JitTuner { pooling_mode, group, num_channels, active: Vec::new() }
    }

    /// Presses `key` at `pitch`: finds it a channel and its nearest note.
    pub fn register_key(&mut self, key: i32, pitch: i64) -> (r: RegisterKeyResult)
        requires
            old(self).wf(),
            valid_pitch(pitch as int),
        ensures
            final(self).wf(),
            final(self).mode() == old(self).mode(),
            final(self).grouping() == old(self).grouping(),
            final(self).channels() == old(self).channels(),
            (final(self).active(), r) == register_spec(
                old(self).active(),
                old(self).grouping(),
                old(self).channels() as int,
                old(self).mode(),
                key,
                pitch as int,
            ),
            r matches RegisterKeyResult::Accepted { channel, stopped_note, started_note, detuning }
                ==> channel < old(self).channels() && -8192 <= detuning < 8192 && -67108865
                <= started_note <= 67108865 && (stopped_note matches Some(n) ==> -67108865 <= n
                <= 67108865),
    {
        let ghost a0 = self.active@;
        let g = self.group;
        let n = self.num_channels;
        let (note, d) = nearest_note(pitch);
        let group = group_value(g, note);
        if let Some(_) = self.find_key(key) {
            return RegisterKeyResult::Rejected;
        }
        let c = self.first_free(group);
        let fresh = KeyLocation { key, channel: c, note, detuning: d };
        proof {
            reveal(jit_wf);
        }
        if c < n {
            proof {
                lemma_first_free(a0, g, n as int, group as int, 0);
                lemma_push_wf(a0, self.pooling_mode, g, n as int, fresh);
            }
            self.active.push(fresh);
            return RegisterKeyResult::Accepted { channel: c, stopped_note: None, started_note: note, detuning: d };
        }
        if n == 0 {
            return RegisterKeyResult::Rejected;
        }
        if let PoolingMode::Block = self.pooling_mode {
            return RegisterKeyResult::Rejected;
        }
        proof {
            lemma_first_free(a0, g, n as int, group as int, 0);
            assert(occupied(a0, g, 0, group as int));
            let k = choose|k: int| 0 <= k < a0.len() && #[trigger] in_group(g, a0[k], 0, group as int);
            assert(group_of(g, a0[k].note as int) == group);
        }
        self.evict(key, note, d, group)
    }

    fn evict(&mut self, key: i32, note: i64, d: i64, group: i64) -> (r: RegisterKeyResult)
        requires
            old(self).wf(),
            old(self).mode() != PoolingMode::Block,
            !has_key(old(self).active(), key),
            -67108865 <= note <= 67108865,
            group == group_of(old(self).grouping(), note as int),
            exists|i: int|
                0 <= i < old(self).active().len() && group_of(
                    old(self).grouping(),
                    old(self).active()[i].note as int,
                ) == group,
        ensures
            final(self).wf(),
            final(self).mode() == old(self).mode(),
            final(self).grouping() == old(self).grouping(),
            final(self).channels() == old(self).channels(),
            (final(self).active(), r) == evict_spec(
                old(self).active(),
                old(self).grouping(),
                old(self).mode(),
                key,
                note as int,
                d as int,
                group as int,
            ),
            r matches RegisterKeyResult::Accepted { channel, stopped_note, .. } ==> channel
                < old(self).channels() && (stopped_note matches Some(n) ==> -67108865 <= n
                <= 67108865),
    {
        let ghost a0 = self.active@;
        let g = self.group;
        let n = self.num_channels;
        let v = self.oldest(group);
        proof {
            lemma_wf_entry(a0, self.pooling_mode, g, n as int, v as int);
        }
        let victim = self.active.remove(v);
        let cv = victim.channel;
        let started = KeyLocation { key, channel: cv, note, detuning: d };
        proof {
            assert(victim == a0[v as int]);
            lemma_evict(a0, self.pooling_mode, g, n as int, v as int, started);
        }
        if let PoolingMode::Stop = self.pooling_mode {
            self.active.push(started);
            assert(self.active@ == a0.remove(v as int).push(started));
            RegisterKeyResult::Accepted {
                channel: cv,
                stopped_note: Some(victim.note),
                started_note: note,
                detuning: d,
            }
        } else {
            self.active.push(victim);
            self.active.push(started);
            assert(self.active@ == a0.remove(v as int).push(victim).push(started));
            RegisterKeyResult::Accepted {
                channel: cv,
                stopped_note: None,
                started_note: note,
                detuning: d,
            }
        }
    }

    /// Releases `key`, handing back where it sounded.
    pub fn deregister_key(&mut self, key: i32) -> (r: AccessKeyResult)
        requires
            old(self).wf(),
        ensures
            final(self).wf(),
            final(self).mode() == old(self).mode(),
            final(self).grouping() == old(self).grouping(),
            final(self).channels() == old(self).channels(),
            !has_key(old(self).active(), key) ==> r == AccessKeyResult::NotFound && final(self).active()
                == old(self).active(),
            has_key(old(self).active(), key) ==> {
                let i = index_of_key(old(self).active(), key);
                &&& r == AccessKeyResult::Found {
                    channel: old(self).active()[i].channel,
                    found_note: old(self).active()[i].note,
                }
                &&& final(self).active() == old(self).active().remove(i)
                &&& old(self).active()[i].channel < old(self).channels()
                &&& -67108865 <= old(self).active()[i].note <= 67108865
            },
            !has_key(final(self).active(), key),
    {
        proof {
            reveal(jit_wf);
        }
        match self.find_key(key) {
            None => AccessKeyResult::NotFound,
            Some(i) => {
                let ghost a0 = self.active@;
                proof {
                    reveal(jit_wf);
                    assert(a0[i as int].channel < self.num_channels);
                }
                let l = self.active.remove(i);
                proof {
                    assert(!has_key(self.active@, key)) by {
                        if has_key(self.active@, key) {
                            let k = choose|k: int| 0 <= k < self.active@.len() && self.active@[k].key == key;
                            let kk = if k < i { k } else { k + 1 };
                            assert(self.active@[k] == a0[kk]);
                            if kk < i {
                                assert(a0[kk].key != a0[i as int].key);
                            } else {
                                assert(a0[i as int].key != a0[kk].key);
                            }
                        }
                    }
                    assert forall|p: int, q: int|
                        0 <= p < q < self.active@.len() implies self.active@[p].key != self.active@[q].key by {
                        let pp = if p < i { p } else { p + 1 };
                        let qq = if q < i { q } else { q + 1 };
                        assert(self.active@[p] == a0[pp]);
                        assert(self.active@[q] == a0[qq]);
                    }
                    assert forall|p: int| 0 <= p < self.active@.len() implies (#[trigger] self.active@[p]).channel
                        < self.num_channels && -67108865 <= self.active@[p].note <= 67108865 by {
                        let pp = if p < i { p } else { p + 1 };
                        assert(self.active@[p] == a0[pp]);
                    }
                    if self.pooling_mode != PoolingMode::Ignore {
                        assert forall|p: int, q: int|
                            0 <= p < q < self.active@.len() && self.active@[p].channel == self.active@[q].channel
                                implies group_of(self.group, self.active@[p].note as int) != group_of(
                            self.group,
                            self.active@[q].note as int,
                        ) by {
                            let pp = if p < i { p } else { p + 1 };
                            let qq = if q < i { q } else { q + 1 };
                            assert(self.active@[p] == a0[pp]);
                            assert(self.active@[q] == a0[qq]);
                        }
                    }
                }
                AccessKeyResult::Found { channel: l.channel, found_note: l.note }
            },
        }
    }

    /// Where `key` sounds, if it does.
    pub fn access_key(&self, key: i32) -> (r: AccessKeyResult)
        requires
            self.wf(),
        ensures
            !has_key(self.active(), key) ==> r == AccessKeyResult::NotFound,
            has_key(self.active(), key) ==> {
                let i = index_of_key(self.active(), key);
                &&& r == AccessKeyResult::Found {
                    channel: self.active()[i].channel,
                    found_note: self.active()[i].note,
                }
                &&& self.active()[i].channel < self.channels()
                &&& -67108865 <= self.active()[i].note <= 67108865
            },
    {
        proof {
            reveal(jit_wf);
        }
        match self.find_key(key) {
            None => AccessKeyResult::NotFound,
            Some(i) => AccessKeyResult::Found {
                channel: self.active[i].channel,
                found_note: self.active[i].note,
            },
        }
    }

    fn find_key(&self, key: i32) -> (r: Option<usize>)
        requires
            self.wf(),
        ensures
            r is None <==> !has_key(self.active(), key),
            r matches Some(i) ==> i < self.active().len() && i == index_of_key(self.active(), key),
    {
        proof {
            reveal(jit_wf);
        }
        let mut i: usize = 0;
        while i < self.active.len()
            invariant
                i <= self.active.len(),
                self.wf(),
                forall|j: int| 0 <= j < i ==> (#[trigger] self.active@[j]).key != key,
            decreases self.active.len() - i,
        {
            proof {
                reveal(jit_wf);
            }
            if self.active[i].key == key {
                proof {
                    let k = index_of_key(self.active@, key);
                    assert(self.active@[k].key == key);
                    if k < i {
                        assert(self.active@[k].key != self.active@[i as int].key);
                    } else if k > i {
                        assert(self.active@[i as int].key != self.active@[k].key);
                    }
                }
                return Some(i);
            }
            i = i + 1;
        }
        None
    }

    fn first_free(&self, group: i64) -> (r: usize)
        requires
            self.wf(),
        ensures
            r == first_free_from(self.active(), self.grouping(), self.channels() as int, group as int, 0),
            r <= self.num_channels,
    {
        let mut c: usize = 0;
        while c < self.num_channels
            invariant
                c <= self.num_channels,
                self.wf(),
                first_free_from(self.active@, self.group, self.num_channels as int, group as int, 0)
                    == first_free_from(self.active@, self.group, self.num_channels as int, group as int, c as int),
            decreases self.num_channels - c,
        {
            if !self.is_occupied(c, group) {
                return c;
            }
            c = c + 1;
        }
        c
    }

    fn is_occupied(&self, c: usize, group: i64) -> (r: bool)
        requires
            self.wf(),
        ensures
            r == occupied(self.active(), self.grouping(), c as int, group as int),
    {
        proof {
            reveal(jit_wf);
        }
        let mut i: usize = 0;
        while i < self.active.len()
            invariant
                i <= self.active.len(),
                self.wf(),
                forall|j: int| 0 <= j < i ==> !(#[trigger] in_group(self.group, self.active@[j], c as int, group as int)),
            decreases self.active.len() - i,
        {
            proof {
                reveal(jit_wf);
            }
            assert(-67108865 <= self.active@[i as int].note <= 67108865);
            if self.active[i].channel == c && group_value(self.group, self.active[i].note) == group {
                assert(in_group(self.group, self.active@[i as int], c as int, group as int));
                return true;
            }
            i = i + 1;
        }
        false
    }

    fn oldest(&self, group: i64) -> (r: usize)
        requires
            self.wf(),
            exists|i: int| 0 <= i < self.active().len() && group_of(self.grouping(), self.active()[i].note as int) == group,
        ensures
            r == oldest_of_group(self.active(), self.grouping(), group as int),
            r < self.active().len(),
            group_of(self.grouping(), self.active()[r as int].note as int) == group,
    {
        proof {
            reveal(jit_wf);
        }
        let mut i: usize = 0;
        while i < self.active.len()
            invariant
                i <= self.active.len(),
                self.wf(),
                exists|i: int| 0 <= i < self.active().len() && group_of(self.grouping(), self.active()[i].note as int) == group,
                forall|j: int| 0 <= j < i ==> group_of(self.group, (#[trigger] self.active@[j]).note as int) != group,
            decreases self.active.len() - i,
        {
            proof {
                reveal(jit_wf);
            }
            assert(-67108865 <= self.active@[i as int].note <= 67108865);
            if group_value(self.group, self.active[i].note) == group {
                proof {
                    let k = oldest_of_group(self.active@, self.group, group as int);
                    assert(0 <= i < self.active@.len() && group_of(self.group, self.active@[i as int].note as int) == group && forall|j: int|
                        0 <= j < i ==> group_of(self.group, self.active@[j].note as int) != group);
                    if k < i {
                        assert(group_of(self.group, self.active@[k].note as int) != group);
                    } else if k > i {
                        assert(group_of(self.group, self.active@[i as int].note as int) != group);
                    }
                }
                return i;
            }
            i = i + 1;
        }
        proof {
            let k = choose|k: int| 0 <= k < self.active().len() && group_of(self.grouping(), self.active()[k].note as int) == group;
            assert(group_of(self.group, self.active@[k].note as int) != group);
        }
        i
    }
}

/// Unless the pooling mode is `Ignore`, no two sounding keys share a channel and a group,
/// hence not a channel and a note either.
pub proof fn lemma_no_shared_group(t: &JitTuner)
    requires
        t.wf(),
        t.mode() != PoolingMode::Ignore,
    ensures
        forall|i: int, j: int|
            0 <= i < j < t.active().len() && t.active()[i].channel == t.active()[j].channel
                ==> group_of(t.grouping(), t.active()[i].note as int) != group_of(
                t.grouping(),
                t.active()[j].note as int,
            ) && t.active()[i].note != t.active()[j].note,
{
    reveal(jit_wf);
}

/// Every sounding key is on a channel of the pool, and no key sounds twice.
pub proof fn lemma_channels_and_keys(t: &JitTuner)
    requires
        t.wf(),
    ensures
        forall|i: int| 0 <= i < t.active().len() ==> (#[trigger] t.active()[i]).channel < t.channels(),
        forall|i: int, j: int|
            0 <= i < j < t.active().len() ==> t.active()[i].key != t.active()[j].key,
{
    reveal(jit_wf);
}

} // verus!
