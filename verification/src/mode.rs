//! Timing modes, the catalog of the modes a screen advertises, and the rule
//! that picks the best mode of an output.

use crate::errors::NoModesError;
use std::collections::HashMap;
use vstd::prelude::*;

verus! {

broadcast use vstd::std_specs::hash::group_hash_axioms;

/// A timing mode advertised by the screen.
#[derive(Clone, Copy, Debug, PartialEq, Eq, Structural)]
pub struct Mode {
    /// Handle of the mode, unique within a session.
    pub id: u32,
    /// Width in pixels.
    pub width: u16,
    /// Height in pixels.
    pub height: u16,
    /// Pixel clock.
    pub dot_clock: u32,
}

impl Mode {
    /// Whether `self` is preferred to `other` before positions are looked at:
    /// the wider one, else the taller one, else the one with the slower
    /// pixel clock.
    pub open spec fn beats(self, other: Mode) -> bool {
        ||| self.width > other.width
        ||| self.width == other.width && self.height > other.height
        ||| self.width == other.width && self.height == other.height && self.dot_clock
            < other.dot_clock
    }

    /// Decides `beats` at run time.
    pub fn is_better_than(&self, other: &Mode) -> (better: bool)
        ensures
            better == self.beats(*other),
    {
        self.width > other.width || (self.width == other.width && (self.height > other.height || (
        self.height == other.height && self.dot_clock < other.dot_clock)))
    }
}

/// The map that a list of modes gives: each mode under its id, a later mode
/// replacing an earlier one of the same id.
pub open spec fn catalog_of(modes: Seq<Mode>) -> Map<u32, Mode>
    decreases modes.len(),
{
    if modes.len() == 0 {
        Map::empty()
    } else {
        catalog_of(modes.drop_last()).insert(modes.last().id, modes.last())
    }
}

/// Position `i` of `supported` names a mode that the catalog knows.
pub open spec fn is_candidate(supported: Seq<u32>, catalog: Map<u32, Mode>, i: int) -> bool {
    0 <= i < supported.len() && catalog.contains_key(supported[i])
}

/// The order among candidates: mode `a` at position `i` is chosen over mode
/// `b` at position `j` when it beats it, or when neither beats the other and
/// `a` stands no earlier.
pub open spec fn prevails(a: Mode, i: int, b: Mode, j: int) -> bool {
    a.beats(b) || (!b.beats(a) && j <= i)
}

/// Position `i` is a candidate that is chosen over every candidate.
pub open spec fn is_best(supported: Seq<u32>, catalog: Map<u32, Mode>, i: int) -> bool {
    &&& is_candidate(supported, catalog, i)
    &&& forall|j: int| #[trigger]
        is_candidate(supported, catalog, j) ==> prevails(
            catalog[supported[i]],
            i,
            catalog[supported[j]],
            j,
        )
}

/// The mode at the best position, if there is any candidate.
pub open spec fn best_mode_of(supported: Seq<u32>, catalog: Map<u32, Mode>) -> Option<Mode> {
    if exists|j: int| is_candidate(supported, catalog, j) {
        Some(catalog[supported[choose|i: int| is_best(supported, catalog, i)]])
    } else {
        None
    }
}

/// The modes of a screen by their id. Built once for a session and only read
/// afterwards.
#[derive(Clone, Debug)]
pub struct ModeCatalog {
    modes: HashMap<u32, Mode>,
}

impl View for ModeCatalog {
    type V = Map<u32, Mode>;

    closed spec fn view(&self) -> Map<u32, Mode> {
        self.modes@
    }
}

impl ModeCatalog {
    /// The catalog of the modes in `modes`.
    pub fn new(modes: &Vec<Mode>) -> (catalog: ModeCatalog)
        ensures
            catalog@ == catalog_of(modes@),
    {
        let mut map: HashMap<u32, Mode> = HashMap::new();
        let mut i: usize = 0;
        while i < modes.len()
            invariant
                i <= modes.len(),
                map@ == catalog_of(modes@.take(i as int)),
            decreases modes.len() - i,
        {
            let mode = modes[i];
            map.insert(mode.id, mode);
            proof {
                assert(modes@.take(i + 1).drop_last() =~= modes@.take(i as int));
            }
            i += 1;
        }
        proof {
            assert(modes@.take(i as int) =~= modes@);
        }
        ModeCatalog { modes: map }
    }

    /// The mode with this id, if the catalog has one.
    pub fn get(&self, id: u32) -> (mode: Option<Mode>)
        ensures
            mode == if self@.contains_key(id) {
                Some(self@[id])
            } else {
                None::<Mode>
            },
    {
        match self.modes.get(&id) {
            Some(mode) => Some(*mode),
            None => None,
        }
    }

    /// The best of the modes that `supported` names and the catalog knows:
    /// the widest, among those the tallest, among those the one with the
    /// slowest pixel clock, and among those the one named last. Fails when
    /// the catalog knows none of them.
    pub fn best_mode(&self, supported: &Vec<u32>) -> (result: Result<Mode, NoModesError>)
        ensures
            match best_mode_of(supported@, self@) {
                Some(mode) => result == Ok::<Mode, NoModesError>(mode),
                None => result is Err,
            },
    {
        let mut best: Option<Mode> = None;
        let ghost mut at: int = 0;
        let mut i: usize = 0;
        while i < supported.len()
            invariant
                i <= supported.len(),
                best is None ==> forall|j: int|
                    0 <= j < i ==> !is_candidate(supported@, self@, j),
                best matches Some(mode) ==> {
                    &&& at < i
                    &&& is_candidate(supported@, self@, at)
                    &&& mode == self@[supported@[at]]
                    &&& forall|j: int|
                        0 <= j < i && #[trigger] is_candidate(supported@, self@, j) ==> prevails(
                            mode,
                            at,
                            self@[supported@[j]],
                            j,
                        )
                },
            decreases supported.len() - i,
        {
            match self.get(supported[i]) {
                Some(mode) => {
                    let replace = match best {
                        Some(held) => !held.is_better_than(&mode),
                        None => true,
                    };
                    if replace {
                        best = Some(mode);
                        proof {
                            at = i as int;
                        }
                    }
                },
                None => {},
            }
            i += 1;
        }
        match best {
            Some(mode) => {
                proof {
                    assert(is_best(supported@, self@, at));
                    let chosen = choose|i: int| is_best(supported@, self@, i);
                    lemma_best_is_unique(supported@, self@, at, chosen);
                }
                Ok(mode)
            },
            None => Err(NoModesError::new()),
        }
    }
}

/// A catalog knows an id exactly when some listed mode has it, and holds for
/// it the last listed mode with that id.
pub proof fn lemma_catalog_of(modes: Seq<Mode>)
    ensures
        forall|id: u32| #[trigger]
            catalog_of(modes).contains_key(id) <==> exists|i: int|
                0 <= i < modes.len() && modes[i].id == id,
        forall|i: int|
            0 <= i < modes.len() && (forall|j: int| i < j < modes.len() ==> modes[j].id
                != modes[i].id) ==> #[trigger] catalog_of(modes)[modes[i].id] == modes[i],
    decreases modes.len(),
{
    if modes.len() > 0 {
        let front = modes.drop_last();
        let last = modes.last();
        lemma_catalog_of(front);
        assert(catalog_of(modes) == catalog_of(front).insert(last.id, last));
        assert forall|id: u32| #[trigger]
            catalog_of(modes).contains_key(id) <==> exists|i: int|
                0 <= i < modes.len() && modes[i].id == id by {
            if catalog_of(modes).contains_key(id) {
                if id == last.id {
                    assert(modes[modes.len() - 1].id == id);
                } else {
                    assert(catalog_of(front).contains_key(id));
                    let i = choose|i: int| 0 <= i < front.len() && front[i].id == id;
                    assert(modes[i].id == id);
                }
            }
            if exists|i: int| 0 <= i < modes.len() && modes[i].id == id {
                let i = choose|i: int| 0 <= i < modes.len() && modes[i].id == id;
                if i < front.len() {
                    assert(front[i].id == id);
                    assert(catalog_of(front).contains_key(id));
                }
            }
        }
        assert forall|i: int|
            0 <= i < modes.len() && (forall|j: int| i < j < modes.len() ==> modes[j].id
                != modes[i].id) implies #[trigger] catalog_of(modes)[modes[i].id] == modes[i] by {
            if i < front.len() {
                assert(front[i] == modes[i]);
                assert forall|j: int| i < j < front.len() implies front[j].id != front[i].id by {
                    assert(front[j] == modes[j]);
                }
                assert(catalog_of(front)[front[i].id] == front[i]);
                assert(modes[modes.len() - 1].id != modes[i].id);
            }
        }
    }
}

/// Among the first `n` positions, if any is a candidate, one candidate is
/// chosen over all others.
proof fn lemma_best_exists(supported: Seq<u32>, catalog: Map<u32, Mode>, n: int) -> (best: int)
    requires
        0 <= n <= supported.len(),
        exists|j: int| 0 <= j < n && is_candidate(supported, catalog, j),
    ensures
        0 <= best < n,
        is_candidate(supported, catalog, best),
        forall|j: int|
            0 <= j < n && #[trigger] is_candidate(supported, catalog, j) ==> prevails(
                catalog[supported[best]],
                best,
                catalog[supported[j]],
                j,
            ),
    decreases n,
{
    let last = n - 1;
    if exists|j: int| 0 <= j < last && is_candidate(supported, catalog, j) {
        let before = lemma_best_exists(supported, catalog, last);
        if is_candidate(supported, catalog, last) && !catalog[supported[before]].beats(
            catalog[supported[last]],
        ) {
            last
        } else {
            before
        }
    } else {
        last
    }
}

/// What `best_mode_of` is: where some supported mode is known, the mode at
/// the one position that is the best; where none is known, nothing.
pub proof fn lemma_best_mode_of(supported: Seq<u32>, catalog: Map<u32, Mode>)
    ensures
        match best_mode_of(supported, catalog) {
            Some(mode) => exists|i: int|
                is_best(supported, catalog, i) && mode == catalog[supported[i]],
            None => forall|j: int| !is_candidate(supported, catalog, j),
        },
{
    if exists|j: int| is_candidate(supported, catalog, j) {
        let j = choose|j: int| is_candidate(supported, catalog, j);
        assert(0 <= j < supported.len() && is_candidate(supported, catalog, j));
        let best = lemma_best_exists(supported, catalog, supported.len() as int);
        assert(is_best(supported, catalog, best));
    }
}

/// The best position decides: the mode there is what `best_mode_of` gives.
pub proof fn lemma_best_position(supported: Seq<u32>, catalog: Map<u32, Mode>, i: int)
    requires
        is_best(supported, catalog, i),
    ensures
        best_mode_of(supported, catalog) == Some(catalog[supported[i]]),
{
    assert(is_candidate(supported, catalog, i));
    let chosen = choose|k: int| is_best(supported, catalog, k);
    lemma_best_is_unique(supported, catalog, i, chosen);
}

/// At most one position is the best one: the rule leaves no tie.
pub proof fn lemma_best_is_unique(supported: Seq<u32>, catalog: Map<u32, Mode>, i: int, k: int)
    requires
        is_best(supported, catalog, i),
        is_best(supported, catalog, k),
    ensures
        i == k,
{
    assert(is_candidate(supported, catalog, i));
    assert(is_candidate(supported, catalog, k));
}

/// Among candidates that all tie on width and height, the best one has the
/// smallest pixel clock, and of those with that clock it stands last.
pub proof fn lemma_best_among_equal_sizes(supported: Seq<u32>, catalog: Map<u32, Mode>, i: int)
    requires
        is_best(supported, catalog, i),
        forall|j: int, k: int|
            is_candidate(supported, catalog, j) && is_candidate(supported, catalog, k) ==> {
                &&& catalog[supported[j]].width == catalog[supported[k]].width
                &&& catalog[supported[j]].height == catalog[supported[k]].height
            },
    ensures
        forall|j: int| #[trigger]
            is_candidate(supported, catalog, j) ==> {
                &&& catalog[supported[i]].dot_clock <= catalog[supported[j]].dot_clock
                &&& catalog[supported[i]].dot_clock == catalog[supported[j]].dot_clock ==> j <= i
            },
{
    assert(is_candidate(supported, catalog, i));
}

} // verus!
