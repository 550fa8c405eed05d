//! Ahead-of-time tuning: every key gets a fixed channel and note up front, and each channel
//! gets one fixed tuning.
use vstd::prelude::*;

use crate::pitch::{detuning_of, letter, letter_of, nearest_note, note_of, valid_pitch};

verus! {

/// Which notes of a channel share one detuning.
#[derive(Clone, Copy, Debug, PartialEq, Eq, Structural)]
pub enum Group {
    /// Each note is tuned on its own (Single Note Tuning Change).
    Note,
    /// All notes of one pitch class share a detuning (Scale/Octave Tuning).
    NoteLetter,
    /// The whole channel shares one detuning (channel fine tuning, pitch bend).
    Channel,
}

pub open spec fn group_of(g: Group, note: int) -> int {
    match g {
        Group::Note => note,
        Group::NoteLetter => letter_of(note),
        Group::Channel => 0,
    }
}

pub fn group_value(g: Group, note: i64) -> (r: i64)
    requires
        -67108865 <= note <= 67108865,
    ensures
        r == group_of(g, note as int),
{
    match g {
        Group::Note => note,
        Group::NoteLetter => letter(note) as i64,
        Group::Channel => 0,
    }
}

/// One entry of a channel's tuning: the notes of `group` are detuned by `detuning`.
#[derive(Clone, Copy, Debug, PartialEq, Eq, Structural)]
pub struct Detuning {
    pub group: i64,
    pub detuning: i64,
}

/// Where a key sounds: on tuner channel `channel` as note `note`, which the channel detunes
/// by `detuning`.
#[derive(Clone, Copy, Debug, PartialEq, Eq, Structural)]
pub struct KeyLocation {
    pub key: i32,
    pub channel: usize,
    pub note: i64,
    pub detuning: i64,
}

pub open spec fn has_group(t: Seq<Detuning>, group: int) -> bool {
    exists|j: int| 0 <= j < t.len() && t[j].group == group
}

/// Whether a channel with tuning `t` can take a note of `group` detuned by `d`: with one
/// note per group the group must be unused, otherwise unused or detuned alike.
pub open spec fn compatible(g: Group, t: Seq<Detuning>, group: int, d: int) -> bool {
    match g {
        Group::Note => !has_group(t, group),
        _ => forall|j: int| 0 <= j < t.len() && t[j].group == group ==> t[j].detuning == d,
    }
}

/// The first channel from `c` on that can take the note, or the number of channels.
pub open spec fn first_fit_from(g: Group, chans: Seq<Seq<Detuning>>, group: int, d: int, c: int) -> int
    decreases chans.len() - c,
{
    if c >= chans.len() || c < 0 {
        chans.len() as int
    } else if compatible(g, chans[c], group, d) {
        c
    } else {
        first_fit_from(g, chans, group, d, c + 1)
    }
}

/// Places a note of `group` detuned by `d` on the first channel that can take it, opening a
/// new channel if none can.
pub open spec fn place(g: Group, chans: Seq<Seq<Detuning>>, group: int, d: int) -> (Seq<Seq<Detuning>>, int) {
    let c = first_fit_from(g, chans, group, d, 0);
    let entry = Detuning { group: group as i64, detuning: d as i64 };
    if c == chans.len() {
        (chans.push(seq![entry]), c)
    } else if has_group(chans[c], group) {
        (chans, c)
    } else {
        (chans.update(c, chans[c].push(entry)), c)
    }
}

/// The channel tunings and key locations after placing the keys of `tuning` (key and pitch)
/// one after another.
pub open spec fn aot_state(g: Group, tuning: Seq<(i32, i64)>) -> (Seq<Seq<Detuning>>, Seq<KeyLocation>)
    decreases tuning.len(),
{
    if tuning.len() == 0 {
        (Seq::empty(), Seq::empty())
    } else {
        let (chans, locs) = aot_state(g, tuning.drop_last());
        let (key, pitch) = tuning.last();
        let note = note_of(pitch as int);
        let d = detuning_of(pitch as int);
        let (chans2, c) = place(g, chans, group_of(g, note), d);
        (
            chans2,
            locs.push(KeyLocation { key, channel: c as usize, note: note as i64, detuning: d as i64 }),
        )
    }
}

pub open spec fn all_valid(tuning: Seq<(i32, i64)>) -> bool {
    forall|i: int| 0 <= i < tuning.len() ==> valid_pitch(#[trigger] tuning[i].1 as int)
}

pub open spec fn deep(chans: Seq<Vec<Detuning>>) -> Seq<Seq<Detuning>> {
    chans.map_values(|v: Vec<Detuning>| v@)
}

/// A fixed assignment of keys to channels and notes.
pub struct AotTuner {
    locations: Vec<KeyLocation>,
}

impl AotTuner {
    pub closed spec fn locations(&self) -> Seq<KeyLocation> {
        self.locations@
    }

    /// Assigns each key of `tuning` (key and pitch) a channel and its nearest note, and
    /// returns the tuning of each channel needed.
    pub fn apply_tuning(g: Group, tuning: &Vec<(i32, i64)>) -> (r: (AotTuner, Vec<Vec<Detuning>>))
        requires
            all_valid(tuning@),
        ensures
            (deep(r.1@), r.0.locations()) == aot_state(g, tuning@),
    {
        let mut chans: Vec<Vec<Detuning>> = Vec::new();
        let mut locations: Vec<KeyLocation> = Vec::new();
        let mut i: usize = 0;
        while i < tuning.len()
            invariant
                i <= tuning.len(),
                all_valid(tuning@),
                (deep(chans@), locations@) == aot_state(g, tuning@.take(i as int)),
            decreases tuning.len() - i,
        {
            let (key, pitch) = tuning[i];
            assert(valid_pitch(tuning@[i as int].1 as int));
            assert(tuning@.take(i + 1).drop_last() == tuning@.take(i as int));
            let (note, d) = nearest_note(pitch);
            let group = group_value(g, note);
            let ghost before = deep(chans@);
            let c = first_fit(g, &chans, group, d);
            let entry = Detuning { group, detuning: d };
            if c == chans.len() {
                let fresh = vec![entry];
                assert(fresh@ == seq![entry]);
                chans.push(fresh);
                assert(deep(chans@) == before.push(seq![entry]));
            } else {
                match find_group(&chans[c], group) {
                    Some(_) => {},
                    None => {
                        let mut t = chans[c].clone();
                        assert(t@ == before[c as int]);
                        t.push(entry);
                        chans.set(c, t);
                        assert(deep(chans@) == before.update(c as int, before[c as int].push(entry)));
                    },
                }
            }
            locations.push(KeyLocation { key, channel: c, note, detuning: d });
            i = i + 1;
        }
        assert(tuning@.take(tuning.len() as int) == tuning@);
        (AotTuner { locations }, chans)
    }

    /// The channel and note of `key`, if it was assigned one.
    pub fn get_channel_and_note_for_key(&self, key: i32) -> (r: Option<(usize, i64)>)
        ensures
            r == location_of(self.locations(), key),
    {
        let mut i: usize = 0;
        while i < self.locations.len()
            invariant
                i <= self.locations.len(),
                forall|j: int| 0 <= j < i ==> (#[trigger] self.locations@[j]).key != key,
            decreases self.locations.len() - i,
        {
            if self.locations[i].key == key {
                return Some((self.locations[i].channel, self.locations[i].note));
            }
            i = i + 1;
        }
        None
    }
}

/// The channel and note of the first location of `key`.
pub open spec fn location_of(locs: Seq<KeyLocation>, key: i32) -> Option<(usize, i64)> {
    if exists|i: int| 0 <= i < locs.len() && locs[i].key == key {
        let i = choose|i: int|
            0 <= i < locs.len() && locs[i].key == key && forall|j: int|
                0 <= j < i ==> locs[j].key != key;
        Some((locs[i].channel, locs[i].note))
    } else {
        None
    }
}

/// The index of the first entry of `group` in `t`.
fn find_group(t: &Vec<Detuning>, group: i64) -> (r: Option<usize>)
    ensures
        r matches Some(j) ==> j < t.len() && t@[j as int].group == group,
        r is None ==> !has_group(t@, group as int),
{
    let mut j: usize = 0;
    while j < t.len()
        invariant
            j <= t.len(),
            forall|k: int| 0 <= k < j ==> (#[trigger] t@[k]).group != group,
        decreases t.len() - j,
    {
        if t[j].group == group {
            return Some(j);
        }
        j = j + 1;
    }
    None
}

fn first_fit(g: Group, chans: &Vec<Vec<Detuning>>, group: i64, d: i64) -> (r: usize)
    ensures
        r == first_fit_from(g, deep(chans@), group as int, d as int, 0),
        r <= chans.len(),
{
    let ghost cs = deep(chans@);
    let mut c: usize = 0;
    while c < chans.len()
        invariant
            c <= chans.len(),
            cs == deep(chans@),
            first_fit_from(g, cs, group as int, d as int, 0) == first_fit_from(
                g,
                cs,
                group as int,
                d as int,
                c as int,
            ),
        decreases chans.len() - c,
    {
        if channel_compatible(g, &chans[c], group, d) {
            return c;
        }
        c = c + 1;
    }
    c
}

fn channel_compatible(g: Group, t: &Vec<Detuning>, group: i64, d: i64) -> (r: bool)
    ensures
        r == compatible(g, t@, group as int, d as int),
{
    match g {
        Group::Note => find_group(t, group).is_none(),
        _ => {
            let mut j: usize = 0;
            while j < t.len()
                invariant
                    j <= t.len(),
                    forall|k: int|
                        0 <= k < j && (#[trigger] t@[k]).group == group ==> t@[k].detuning == d,
                decreases t.len() - j,
            {
                if t[j].group == group && t[j].detuning != d {
                    return false;
                }
                j = j + 1;
            }
            true
        },
    }
}

pub open spec fn carries(t: Seq<Detuning>, group: int, d: int) -> bool {
    exists|j: int| 0 <= j < t.len() && t[j].group == group && t[j].detuning == d
}

/// Every channel tunes at least one group, each within half a semitone, and its groups are
/// notes, pitch classes or the single group of the channel.
pub open spec fn entries_bounded(g: Group, t: Seq<Detuning>) -> bool {
    &&& t.len() > 0
    &&& forall|j: int|
        0 <= j < t.len() ==> {
            &&& -8192 <= (#[trigger] t[j]).detuning < 8192
            &&& -67108865 <= t[j].group <= 67108865
            &&& g == Group::NoteLetter ==> 0 <= t[j].group < 12
            &&& g == Group::Channel ==> t[j].group == 0
        }
}

pub open spec fn groups_unique(t: Seq<Detuning>) -> bool {
    forall|i: int, j: int| 0 <= i < j < t.len() ==> t[i].group != t[j].group
}

/// Ahead-of-time tuning is sound: every key is placed on a channel whose tuning detunes the
/// key's note so that it sounds at exactly the key's pitch, no channel tunes a group twice, and
/// with one tuning per note no two keys of a channel share a note.
pub proof fn lemma_aot_sound(g: Group, tuning: Seq<(i32, i64)>)
    requires
        all_valid(tuning),
        tuning.len() <= usize::MAX,
    ensures
        ({
            let (chans, locs) = aot_state(g, tuning);
            &&& locs.len() == tuning.len()
            &&& chans.len() <= tuning.len()
            &&& forall|i: int|
                0 <= i < locs.len() ==> {
                    &&& (#[trigger] locs[i]).key == tuning[i].0
                    &&& locs[i].note * 16384 + locs[i].detuning == tuning[i].1
                    &&& locs[i].channel < chans.len()
                    &&& carries(chans[locs[i].channel as int], group_of(g, locs[i].note as int), locs[i].detuning as int)
                }
            &&& forall|c: int| 0 <= c < chans.len() ==> groups_unique(#[trigger] chans[c])
            &&& forall|c: int| 0 <= c < chans.len() ==> entries_bounded(g, #[trigger] chans[c])
            &&& g == Group::Note ==> forall|i: int, j: int|
                0 <= i < j < locs.len() && locs[i].channel == locs[j].channel ==> locs[i].note
                    != locs[j].note
        }),
    decreases tuning.len(),
{
    if tuning.len() > 0 {
        let prev = tuning.drop_last();
        assert forall|i: int| 0 <= i < prev.len() implies valid_pitch(#[trigger] prev[i].1 as int) by {
            assert(prev[i] == tuning[i]);
        }
        lemma_aot_sound(g, prev);
        let (chans, locs) = aot_state(g, prev);
        let (key, pitch) = tuning.last();
        assert(valid_pitch(tuning[tuning.len() - 1].1 as int));
        let note = note_of(pitch as int);
        let d = detuning_of(pitch as int);
        let group = group_of(g, note);
        let c = first_fit_from(g, chans, group, d, 0);
        lemma_first_fit(g, chans, group, d, 0);
        let entry = Detuning { group: group as i64, detuning: d as i64 };
        let (chans2, c2) = place(g, chans, group, d);
        let locs2 = locs.push(KeyLocation { key, channel: c as usize, note: note as i64, detuning: d as i64 });
        assert(aot_state(g, tuning) == (chans2, locs2));
        assert(-67108865 <= note <= 67108865);
        if g == Group::NoteLetter {
            assert(0 <= group < 12);
        }
        // every old location still carries its tuning
        assert forall|i: int| 0 <= i < locs.len() implies carries(
            #[trigger] chans2[locs[i].channel as int],
            group_of(g, locs[i].note as int),
            locs[i].detuning as int,
        ) by {
            let ci = locs[i].channel as int;
            let gi = group_of(g, locs[i].note as int);
            let di = locs[i].detuning as int;
            let j = choose|j: int| 0 <= j < chans[ci].len() && chans[ci][j].group == gi && chans[ci][j].detuning == di;
            assert(chans2[ci][j] == chans[ci][j]);
        }
        if c == chans.len() {
            assert(chans2[c][0] == entry);
            assert(carries(chans2[c], group, d));
        } else if has_group(chans[c], group) {
            assert(g != Group::Note);
            let j = choose|j: int| 0 <= j < chans[c].len() && chans[c][j].group == group;
            assert(chans[c][j].detuning == d);
            assert(carries(chans2[c], group, d));
        } else {
            assert(chans2[c][chans[c].len() as int] == entry);
            assert(carries(chans2[c], group, d));
            assert(groups_unique(chans2[c]));
        }
        assert(locs2[locs.len() as int].channel as int == c);
        assert(locs2[locs.len() as int].note as int == note);
        assert(locs2[locs.len() as int].detuning as int == d);
        assert(tuning[locs.len() as int] == tuning.last());
        assert forall|i: int| 0 <= i < locs2.len() implies {
            &&& (#[trigger] locs2[i]).key == tuning[i].0
            &&& locs2[i].note * 16384 + locs2[i].detuning == tuning[i].1
            &&& locs2[i].channel < chans2.len()
            &&& carries(chans2[locs2[i].channel as int], group_of(g, locs2[i].note as int), locs2[i].detuning as int)
        } by {
            if i < locs.len() {
                assert(locs2[i] == locs[i]);
                assert(tuning[i] == prev[i]);
            }
        }
        assert forall|c3: int| 0 <= c3 < chans2.len() implies groups_unique(#[trigger] chans2[c3]) && entries_bounded(g, chans2[c3]) by {
            if c3 < chans.len() && c3 != c {
                assert(chans2[c3] == chans[c3]);
            }
            if c3 == c && c < chans.len() {
                assert(entries_bounded(g, chans[c]));
                assert forall|j: int| 0 <= j < chans2[c].len() implies {
                    &&& -8192 <= (#[trigger] chans2[c][j]).detuning < 8192
                    &&& -67108865 <= chans2[c][j].group <= 67108865
                    &&& g == Group::NoteLetter ==> 0 <= chans2[c][j].group < 12
                    &&& g == Group::Channel ==> chans2[c][j].group == 0
                } by {
                    if j < chans[c].len() {
                        assert(chans2[c][j] == chans[c][j]);
                    }
                }
            }
        }
        if g == Group::Note {
            assert forall|i: int, j: int|
                0 <= i < j < locs2.len() && locs2[i].channel == locs2[j].channel implies locs2[i].note
                    != locs2[j].note by {
                if j == locs.len() {
                    assert(locs2[i] == locs[i]);
                    if c < chans.len() && locs2[i].note == locs2[j].note {
                        let ci = locs[i].channel as int;
                        assert(ci == c);
                        assert(carries(chans[ci], locs[i].note as int, locs[i].detuning as int));
                        let k = choose|k: int| 0 <= k < chans[ci].len() && chans[ci][k].group == locs[i].note as int && chans[ci][k].detuning == locs[i].detuning as int;
                        assert(chans[c][k].group == group);
                        assert(has_group(chans[c], group));
                    }
                } else {
                    assert(locs2[i] == locs[i]);
                    assert(locs2[j] == locs[j]);
                }
            }
        }
    }
}

proof fn lemma_first_fit(g: Group, chans: Seq<Seq<Detuning>>, group: int, d: int, c: int)
    requires
        0 <= c <= chans.len(),
    ensures
        c <= first_fit_from(g, chans, group, d, c) <= chans.len(),
        first_fit_from(g, chans, group, d, c) < chans.len() ==> compatible(
            g,
            chans[first_fit_from(g, chans, group, d, c)],
            group,
            d,
        ),
    decreases chans.len() - c,
{
    if c < chans.len() && !compatible(g, chans[c], group, d) {
        lemma_first_fit(g, chans, group, d, c + 1);
    }
}

} // verus!
