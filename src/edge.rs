//! Rising-edge detection on a line held in input capability.
use vstd::prelude::*;

verus! {

/// The level that a read reports, where a failed read counts as low.
pub open spec fn level_or_low(level: Option<bool>) -> bool {
    match level {
        Some(b) => b,
        None => false,
    }
}

/// Whether a read of `level`, after `last` was the tracked level, is a
/// low-to-high transition. A failed read is never an edge.
pub open spec fn is_rising(last: bool, level: Option<bool>) -> bool {
    level == Some(true) && !last
}

/// The tracked level after a read of `level`: a successful read that differs
/// replaces it, anything else keeps it.
pub open spec fn tracked_after(last: bool, level: Option<bool>) -> bool {
    match level {
        Some(b) => b,
        None => last,
    }
}

/// Holds a line in input capability together with the last level seen on it.
pub struct EdgeDetector<T> {
    pin: T,
    status: bool,
}

impl<T> EdgeDetector<T> {
    /// The line held by the detector.
    pub closed spec fn held(&self) -> T {
        self.pin
    }

    /// The most recently observed level.
    pub closed spec fn last_level(&self) -> bool {
        self.status
    }

    /// Takes the line; `level` is what an immediate read of it gave (`None`
    /// when the read failed, which counts as low).
    pub fn new(pin: T, level: Option<bool>) -> (r: Self)
        ensures
            r.held() == pin,
            r.last_level() == level_or_low(level),
    {
        let status = match level {
            Some(b) => b,
            None => false,
        };
        EdgeDetector { pin, status }
    }

    /// Feeds the result of a fresh read of the line (`None` when it failed) and
    /// reports whether it is a rising edge.
    pub fn risig_edge(&mut self, level: Option<bool>) -> (r: bool)
        ensures
            r == is_rising(old(self).last_level(), level),
            final(self).last_level() == tracked_after(old(self).last_level(), level),
            final(self).held() == old(self).held(),
    {
        match level {
            Some(status) => {
                if status == self.status {
                    false
                } else {
                    self.status = status;
                    status
                }
            },
            None => false,
        }
    }

    /// The held line, to read its level.
    pub fn pin(&self) -> (r: &T)
        ensures
            *r == self.held(),
    {
        &self.pin
    }

    /// Gives the line back.
    pub fn release(self) -> (r: T)
        ensures
            r == self.held(),
    {
        self.pin
    }
}

/// The level tracked after the successful reads `levels`, from `init`.
pub open spec fn tracked_level(init: bool, levels: Seq<bool>) -> bool
    decreases levels.len(),
{
    if levels.len() == 0 {
        init
    } else {
        tracked_after(tracked_level(init, levels.drop_last()), Some(levels.last()))
    }
}

/// What `risig_edge` reports for each of the successive successful reads
/// `levels`, on a detector whose tracked level starts at `init`.
pub open spec fn edge_reports(init: bool, levels: Seq<bool>) -> Seq<bool>
    decreases levels.len(),
{
    if levels.len() == 0 {
        Seq::empty()
    } else {
        edge_reports(init, levels.drop_last()).push(
            is_rising(tracked_level(init, levels.drop_last()), Some(levels.last())),
        )
    }
}

/// Over any sequence of successful reads, a read is reported as an edge
/// exactly when it is high and the level before it (the initial level for
/// the first read) was low: once per low-to-high transition, and never on a
/// stable level or a high-to-low transition.
pub proof fn lemma_edge_once_per_rise(init: bool, levels: Seq<bool>)
    ensures
        edge_reports(init, levels).len() == levels.len(),
        forall|i: int|
            0 <= i < levels.len() ==> #[trigger] edge_reports(init, levels)[i] == (levels[i] && !(if i == 0 {
                init
            } else {
                levels[i - 1]
            })),
    decreases levels.len(),
{
    if levels.len() > 0 {
        let prefix = levels.drop_last();
        lemma_edge_once_per_rise(init, prefix);
        assert(tracked_level(init, prefix) == if prefix.len() == 0 {
            init
        } else {
            prefix.last()
        });
        assert forall|i: int| 0 <= i < levels.len() implies #[trigger] edge_reports(init, levels)[i] == (
        levels[i] && !(if i == 0 {
            init
        } else {
            levels[i - 1]
        })) by {
            if i < prefix.len() {
                assert(edge_reports(init, levels)[i] == edge_reports(init, prefix)[i]);
                assert(prefix[i] == levels[i]);
                if i > 0 {
                    assert(prefix[i - 1] == levels[i - 1]);
                }
            }
        }
    }
}

} // verus!
