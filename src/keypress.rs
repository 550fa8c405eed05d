//! Tracks which fingers (touches, mouse buttons, MIDI keys) hold which locations (keys of a
//! scale). A location sounds while at least one finger holds it.
use vstd::prelude::*;

verus! {

#[derive(Clone, Copy, Debug, PartialEq, Eq, Structural)]
pub enum PlaceAction {
    /// The location was not held before.
    KeyPressed,
    /// Another finger already holds the location.
    KeyAlreadyPressed,
}

#[derive(Clone, Copy, Debug, PartialEq, Eq, Structural)]
pub enum LiftAction {
    /// No finger holds the location any more.
    KeyReleased(i32),
    /// Another finger still holds the location.
    KeyRemainsPressed,
}

/// A finger was lifted or moved that was never placed.
#[derive(Clone, Copy, Debug, PartialEq, Eq, Structural)]
pub struct IllegalState;

pub open spec fn has_finger(fs: Seq<(i32, i32)>, id: i32) -> bool {
    exists|i: int| 0 <= i < fs.len() && fs[i].0 == id
}

pub open spec fn finger_index(fs: Seq<(i32, i32)>, id: i32) -> int {
    choose|i: int| 0 <= i < fs.len() && fs[i].0 == id
}

pub open spec fn is_pressed(fs: Seq<(i32, i32)>, location: i32) -> bool {
    exists|i: int| 0 <= i < fs.len() && fs[i].1 == location
}

pub open spec fn fingers_unique(fs: Seq<(i32, i32)>) -> bool {
    forall|i: int, j: int| 0 <= i < j < fs.len() ==> fs[i].0 != fs[j].0
}

/// The fingers after lifting `id`, and what became of its location.
pub open spec fn lift_spec(fs: Seq<(i32, i32)>, id: i32) -> (Seq<(i32, i32)>, Result<LiftAction, IllegalState>) {
    if has_finger(fs, id) {
        let i = finger_index(fs, id);
        let rest = fs.remove(i);
        let location = fs[i].1;
        (
            rest,
            Ok(
                if is_pressed(rest, location) {
                    LiftAction::KeyRemainsPressed
                } else {
                    LiftAction::KeyReleased(location)
                },
            ),
        )
    } else {
        (fs, Err(IllegalState))
    }
}

/// The fingers after placing `id` at `location`, and whether the location was held already.
pub open spec fn place_spec(fs: Seq<(i32, i32)>, id: i32, location: i32) -> (Seq<(i32, i32)>, Result<PlaceAction, i32>) {
    if has_finger(fs, id) {
        (fs, Err(id))
    } else {
        (
            fs.push((id, location)),
            Ok(
                if is_pressed(fs, location) {
                    PlaceAction::KeyAlreadyPressed
                } else {
                    PlaceAction::KeyPressed
                },
            ),
        )
    }
}

pub struct KeypressTracker {
    fingers: Vec<(i32, i32)>,
}

impl KeypressTracker {
    /// The fingers and the locations they hold, in the order they were placed.
    pub closed spec fn fingers(&self) -> Seq<(i32, i32)> {
        self.fingers@
    }

    pub open spec fn wf(&self) -> bool {
        fingers_unique(self.fingers())
    }

    pub fn new() -> (r: KeypressTracker)
        ensures
            r.wf(),
            r.fingers().len() == 0,
    {
        KeypressTracker { fingers: Vec::new() }
    }

    fn find(&self, id: i32) -> (r: Option<usize>)
        requires
            self.wf(),
        ensures
            r is None <==> !has_finger(self.fingers(), id),
            r matches Some(i) ==> i == finger_index(self.fingers(), id) && i < self.fingers().len(),
    {
        let mut i: usize = 0;
        while i < self.fingers.len()
            invariant
                i <= self.fingers.len(),
                self.wf(),
                forall|j: int| 0 <= j < i ==> (#[trigger] self.fingers@[j]).0 != id,
            decreases self.fingers.len() - i,
        {
            if self.fingers[i].0 == id {
                proof {
                    let k = finger_index(self.fingers@, id);
                    if k < i {
                        assert(self.fingers@[k].0 != id);
                    } else if k > i {
                        assert(self.fingers@[i as int].0 != self.fingers@[k].0);
                    }
                }
                return Some(i);
            }
            i = i + 1;
        }
        None
    }

    fn pressed(&self, location: i32) -> (r: bool)
        ensures
            r == is_pressed(self.fingers(), location),
    {
        let mut i: usize = 0;
        while i < self.fingers.len()
            invariant
                i <= self.fingers.len(),
                forall|j: int| 0 <= j < i ==> (#[trigger] self.fingers@[j]).1 != location,
            decreases self.fingers.len() - i,
        {
            if self.fingers[i].1 == location {
                return true;
            }
            i = i + 1;
        }
        false
    }

    /// Places finger `id` at `location`; a finger that is already placed is refused.
    pub fn place_finger_at(&mut self, id: i32, location: i32) -> (r: Result<PlaceAction, i32>)
        requires
            old(self).wf(),
        ensures
            final(self).wf(),
            (final(self).fingers(), r) == place_spec(old(self).fingers(), id, location),
    {
        if self.find(id).is_some() {
            return Err(id);
        }
        let action = if self.pressed(location) {
            PlaceAction::KeyAlreadyPressed
        } else {
            PlaceAction::KeyPressed
        };
        let ghost before = self.fingers@;
        self.fingers.push((id, location));
        proof {
            assert forall|i: int, j: int| 0 <= i < j < self.fingers@.len() implies self.fingers@[i].0
                != self.fingers@[j].0 by {
                assert(self.fingers@[i] == before[i]);
                if j < before.len() {
                    assert(self.fingers@[j] == before[j]);
                }
            }
        }
        Ok(action)
    }

    /// Lifts finger `id`.
    pub fn lift_finger(&mut self, id: i32) -> (r: Result<LiftAction, IllegalState>)
        requires
            old(self).wf(),
        ensures
            final(self).wf(),
            (final(self).fingers(), r) == lift_spec(old(self).fingers(), id),
    {
        match self.find(id) {
            None => Err(IllegalState),
            Some(i) => {
                let ghost before = self.fingers@;
                let (_, location) = self.fingers.remove(i);
                proof {
                    assert forall|p: int, q: int| 0 <= p < q < self.fingers@.len() implies self.fingers@[p].0
                        != self.fingers@[q].0 by {
                        let pp = if p < i { p } else { p + 1 };
                        let qq = if q < i { q } else { q + 1 };
                        assert(self.fingers@[p] == before[pp]);
                        assert(self.fingers@[q] == before[qq]);
                    }
                }
                if self.pressed(location) {
                    Ok(LiftAction::KeyRemainsPressed)
                } else {
                    Ok(LiftAction::KeyReleased(location))
                }
            },
        }
    }

    /// Moves finger `id` to `location`: lifts it, then places it again.
    pub fn move_finger_to(&mut self, id: i32, location: i32) -> (r: Result<(LiftAction, PlaceAction), IllegalState>)
        requires
            old(self).wf(),
        ensures
            final(self).wf(),
            !has_finger(old(self).fingers(), id) ==> r == Err::<(LiftAction, PlaceAction), IllegalState>(IllegalState)
                && final(self).fingers() == old(self).fingers(),
            has_finger(old(self).fingers(), id) ==> {
                let (lifted, lift) = lift_spec(old(self).fingers(), id);
                let (placed, place) = place_spec(lifted, id, location);
                &&& final(self).fingers() == placed
                &&& lift matches Ok(l)
                &&& place matches Ok(p)
                &&& r == Ok::<(LiftAction, PlaceAction), IllegalState>((l, p))
            },
    {
        match self.lift_finger(id) {
            Err(e) => Err(e),
            Ok(lift) => {
                proof {
                    let fs = old(self).fingers();
                    let i = finger_index(fs, id);
                    assert(!has_finger(self.fingers(), id)) by {
                        if has_finger(self.fingers(), id) {
                            let k = choose|k: int| 0 <= k < self.fingers().len() && self.fingers()[k].0 == id;
                            let kk = if k < i { k } else { k + 1 };
                            assert(self.fingers()[k] == fs[kk]);
                        }
                    }
                }
                match self.place_finger_at(id, location) {
                    Ok(place) => Ok((lift, place)),
                    Err(_) => Err(IllegalState),
                }
            },
        }
    }

    /// The location finger `id` holds.
    pub fn location_of(&self, id: i32) -> (r: Option<i32>)
        requires
            self.wf(),
        ensures
            !has_finger(self.fingers(), id) ==> r is None,
            has_finger(self.fingers(), id) ==> r == Some(self.fingers()[finger_index(self.fingers(), id)].1),
    {
        match self.find(id) {
            None => None,
            Some(i) => Some(self.fingers[i].1),
        }
    }

    /// Every held location, once each, in the order they were first held.
    pub fn pressed_locations(&self) -> (r: Vec<i32>)
        ensures
            forall|i: int| 0 <= i < r@.len() ==> is_pressed(self.fingers(), #[trigger] r@[i]),
            forall|l: i32| is_pressed(self.fingers(), l) ==> r@.contains(l),
            forall|i: int, j: int| 0 <= i < j < r@.len() ==> r@[i] != r@[j],
    {
        let mut r: Vec<i32> = Vec::new();
        let mut i: usize = 0;
        while i < self.fingers.len()
            invariant
                i <= self.fingers.len(),
                forall|k: int| 0 <= k < r@.len() ==> is_pressed(self.fingers(), #[trigger] r@[k]),
                forall|k: int| 0 <= k < i ==> r@.contains(#[trigger] self.fingers@[k].1),
                forall|p: int, q: int| 0 <= p < q < r@.len() ==> r@[p] != r@[q],
            decreases self.fingers.len() - i,
        {
            let location = self.fingers[i].1;
            let seen = contains(&r, location);
            if !seen {
                let ghost before = r@;
                r.push(location);
                proof {
                    assert forall|k: int| 0 <= k < i implies r@.contains(#[trigger] self.fingers@[k].1) by {
                        let w = choose|w: int| 0 <= w < before.len() && before[w] == self.fingers@[k].1;
                        assert(r@[w] == before[w]);
                    }
                    assert(r@[before.len() as int] == location);
                    assert forall|p: int, q: int| 0 <= p < q < r@.len() implies r@[p] != r@[q] by {
                        if q == before.len() {
                            assert(r@[p] == before[p]);
                        } else {
                            assert(r@[p] == before[p]);
                            assert(r@[q] == before[q]);
                        }
                    }
                }
            }
            i = i + 1;
        }
        proof {
            assert forall|l: i32| is_pressed(self.fingers(), l) implies r@.contains(l) by {
                let k = choose|k: int| 0 <= k < self.fingers@.len() && self.fingers@[k].1 == l;
                assert(r@.contains(self.fingers@[k].1));
            }
        }
        r
    }
}

fn contains(v: &Vec<i32>, x: i32) -> (r: bool)
    ensures
        r == v@.contains(x),
{
    let mut j: usize = 0;
    while j < v.len()
        invariant
            j <= v.len(),
            forall|k: int| 0 <= k < j ==> v@[k] != x,
        decreases v.len() - j,
    {
        if v[j] == x {
            assert(v@[j as int] == x);
            return true;
        }
        j = j + 1;
    }
    false
}

} // verus!
