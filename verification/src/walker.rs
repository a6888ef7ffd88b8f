//! The depth-first walk over the entries of one unit.
//!
//! The walk takes the entries in the order in which the tree's reader yields
//! them. A subprogram entry opens a record and becomes the current function;
//! it stays current until the next subprogram entry, whatever the depth does
//! in between. A variable entry is attached to the current function's record,
//! or dropped where no function has been opened yet. Any other entry leaves
//! the table alone.
use vstd::prelude::*;
use crate::decode::{DecodedName, DecodedNameModel};
use crate::handlers::{
    handle_other, handle_subprogram, handle_variable, names_of, subprogram_of, variable_of,
};
use crate::model::{Encoding, Entry, EntryKind, EntryModel, SubprogramModel, kind_of_tag};
use crate::table::SymbolTable;

verus! {

/// Where a walk stands.
pub struct WalkState {
    /// Depth of the entry visited last, relative to the first.
    pub depth: int,
    /// Linkage name of the function opened last.
    pub current: Option<Seq<char>>,
    /// The records gathered so far.
    pub table: Map<Seq<char>, SubprogramModel>,
}

/// One entry as the walk meets it: the entry and how far the depth moved
/// since the entry before.
pub struct Visit {
    pub depth_delta: int,
    pub entry: EntryModel,
}

/// The state in which every walk starts.
pub open spec fn initial() -> WalkState {
    WalkState { depth: 0, current: None, table: Map::empty() }
}

/// Whether a depth can be held.
pub open spec fn fits(depth: int) -> bool {
    isize::MIN <= depth <= isize::MAX
}

/// Whether a variable met in state `s` has a record to go to.
pub open spec fn has_open_record(s: WalkState) -> bool {
    s.current is Some && s.table.dom().contains(s.current->Some_0)
}

/// The state after visiting one entry.
pub open spec fn visit_spec(encoding: Encoding, s: WalkState, v: Visit) -> WalkState {
    let depth = s.depth + v.depth_delta;
    match kind_of_tag(v.entry.tag) {
        EntryKind::Subprogram => {
            let record = subprogram_of(v.entry);
            WalkState {
                depth,
                current: Some(record.linkage_name),
                table: s.table.insert(record.linkage_name, record),
            }
        },
        EntryKind::Variable => if has_open_record(s) {
            let key = s.current->Some_0;
            WalkState {
                depth,
                current: s.current,
                table: s.table.insert(
                    key,
                    s.table[key].with_variable(variable_of(encoding, v.entry)),
                ),
            }
        } else {
            WalkState { depth, current: s.current, table: s.table }
        },
        EntryKind::Other => WalkState { depth, current: s.current, table: s.table },
    }
}

/// The state after visiting a sequence of entries, from the start.
pub open spec fn replay(encoding: Encoding, visits: Seq<Visit>) -> WalkState
    decreases visits.len(),
{
    if visits.len() == 0 {
        initial()
    } else {
        visit_spec(encoding, replay(encoding, visits.drop_last()), visits.last())
    }
}

/// What became of a visited entry.
#[derive(Clone, Debug, PartialEq, Eq)]
pub enum Visited {
    /// A subprogram entry: its record was put into the table.
    Opened,
    /// A variable entry: the variable went to the current function's record.
    Attached,
    /// A variable entry outside any function: nothing was kept.
    Dropped,
    /// Any other entry: nothing was kept; these are its attributes as names.
    Inspected(Vec<DecodedName>),
}

/// Mathematical value of a [`Visited`].
pub enum VisitedModel {
    Opened,
    Attached,
    Dropped,
    Inspected(Seq<DecodedNameModel>),
}

impl View for Visited {
    type V = VisitedModel;

    open spec fn view(&self) -> VisitedModel {
        match self {
            Visited::Opened => VisitedModel::Opened,
            Visited::Attached => VisitedModel::Attached,
            Visited::Dropped => VisitedModel::Dropped,
            Visited::Inspected(names) => VisitedModel::Inspected(
                names@.map_values(|n: DecodedName| n@),
            ),
        }
    }
}

/// What becomes of an entry visited in state `s`.
pub open spec fn visited_spec(s: WalkState, entry: EntryModel) -> VisitedModel {
    match kind_of_tag(entry.tag) {
        EntryKind::Subprogram => VisitedModel::Opened,
        EntryKind::Variable => if has_open_record(s) {
            VisitedModel::Attached
        } else {
            VisitedModel::Dropped
        },
        EntryKind::Other => VisitedModel::Inspected(names_of(entry)),
    }
}

/// Why a walk stopped before the end of the tree.
#[derive(Clone, Copy, Debug, PartialEq, Eq, Structural)]
pub enum WalkError {
    /// The tree's reader could not decode the next entry.
    MalformedTree,
    /// The depth left the range of `isize`.
    DepthOutOfRange,
}

/// A walk in progress.
pub struct Walker {
    encoding: Encoding,
    table: SymbolTable,
    depth: isize,
    current: Option<usize>,
}

impl View for Walker {
    type V = WalkState;

    closed spec fn view(&self) -> WalkState {
        WalkState {
            depth: self.depth as int,
            current: match self.current {
                Some(slot) => if slot < self.table.keys().len() {
                    Some(self.table.keys()[slot as int])
                } else {
                    None
                },
                None => None,
            },
            table: self.table@,
        }
    }
}

impl Walker {
    /// The encoding under which locations are evaluated.
    pub closed spec fn encoding(&self) -> Encoding {
        self.encoding
    }

    /// A walk that has visited nothing.
    pub fn new(encoding: Encoding) -> (walker: Walker)
        ensures
            walker@ == initial(),
            walker.encoding() == encoding,
    {
        Walker { encoding, table: SymbolTable::new(), depth: 0, current: None }
    }

    /// Visits the next entry, `depth_delta` levels from the one before.
    ///
    /// Fails, and changes nothing, where the new depth cannot be held.
    pub fn visit(&mut self, depth_delta: isize, entry: &Entry) -> (outcome: Result<
        Visited,
        WalkError,
    >)
        ensures
            final(self).encoding() == old(self).encoding(),
            match outcome {
                Ok(visited) => {
                    &&& fits(old(self)@.depth + depth_delta)
                    &&& final(self)@ == visit_spec(
                        old(self).encoding(),
                        old(self)@,
                        Visit { depth_delta: depth_delta as int, entry: entry@ },
                    )
                    &&& visited@ == visited_spec(old(self)@, entry@)
                },
                Err(error) => {
                    &&& error == WalkError::DepthOutOfRange
                    &&& !fits(old(self)@.depth + depth_delta)
                    &&& final(self)@ == old(self)@
                },
            },
    {
        let depth = match self.depth.checked_add(depth_delta) {
            Some(depth) => depth,
            None => {
                return Err(WalkError::DepthOutOfRange);
            },
        };
        proof {
            self.table.lemma_keys_are_domain();
        }
        match EntryKind::of_tag(entry.tag) {
            EntryKind::Subprogram => {
                let record = handle_subprogram(entry);
                let slot = self.table.upsert(record);
                self.current = Some(slot);
                self.depth = depth;
                Ok(Visited::Opened)
            },
            EntryKind::Variable => {
                let variable = handle_variable(self.encoding, entry);
                self.depth = depth;
                match self.current {
                    Some(slot) => {
                        proof {
                            if slot < self.table.keys().len() {
                                assert(self.table.keys().contains(self.table.keys()[slot as int]));
                            }
                        }
                        if self.table.attach(slot, variable) {
                            Ok(Visited::Attached)
                        } else {
                            Ok(Visited::Dropped)
                        }
                    },
                    None => Ok(Visited::Dropped),
                }
            },
            EntryKind::Other => {
                let names = handle_other(entry);
                self.depth = depth;
                Ok(Visited::Inspected(names))
            },
        }
    }

    /// Depth of the entry visited last.
    pub fn depth(&self) -> (depth: isize)
        ensures
            depth == self@.depth,
    {
        self.depth
    }

    /// The records gathered so far.
    pub fn table(&self) -> (table: &SymbolTable)
        ensures
            table@ == self@.table,
    {
        &self.table
    }

    /// Ends the walk and hands out the table.
    pub fn finish(self) -> (table: SymbolTable)
        ensures
            table@ == self@.table,
    {
        self.table
    }
}

/// What the tree's reader yields at one step of the traversal.
#[derive(Clone, Debug, PartialEq, Eq)]
pub enum TreeEvent {
    /// The next entry in depth-first order, `depth_delta` levels from the one
    /// before.
    Entry { depth_delta: isize, entry: Entry },
    /// The reader could not decode the next entry.
    Malformed,
}

/// Mathematical value of a [`TreeEvent`].
pub enum TreeEventModel {
    Entry { depth_delta: int, entry: EntryModel },
    Malformed,
}

impl View for TreeEvent {
    type V = TreeEventModel;

    open spec fn view(&self) -> TreeEventModel {
        match self {
            TreeEvent::Entry { depth_delta, entry } => TreeEventModel::Entry {
                depth_delta: *depth_delta as int,
                entry: entry@,
            },
            TreeEvent::Malformed => TreeEventModel::Malformed,
        }
    }
}

/// A sequence of events, by value.
pub open spec fn events_of(events: Seq<TreeEvent>) -> Seq<TreeEventModel> {
    events.map_values(|e: TreeEvent| e@)
}

/// The entries of a sequence of events, as the walk meets them.
pub open spec fn visits_of(events: Seq<TreeEventModel>) -> Seq<Visit> {
    events.map_values(
        |e: TreeEventModel| Visit { depth_delta: e->depth_delta, entry: e->entry },
    )
}

/// The depth after a sequence of visits: the sum of their moves.
pub open spec fn depth_after(visits: Seq<Visit>) -> int
    decreases visits.len(),
{
    if visits.len() == 0 {
        0
    } else {
        depth_after(visits.drop_last()) + visits.last().depth_delta
    }
}

/// Whether a walk gets through all of `events`: each is an entry, and the
/// depth can be held after each.
pub open spec fn walkable(events: Seq<TreeEventModel>) -> bool
    decreases events.len(),
{
    events.len() == 0 || {
        &&& walkable(events.drop_last())
        &&& events.last() is Entry
        &&& fits(depth_after(visits_of(events)))
    }
}

/// Why a walk that got through the first `visited` events went no further.
pub open spec fn stop_reason(events: Seq<TreeEventModel>, visited: int) -> Option<WalkError> {
    if visited >= events.len() {
        None
    } else if events[visited] is Malformed {
        Some(WalkError::MalformedTree)
    } else {
        Some(WalkError::DepthOutOfRange)
    }
}

/// The depth of a replayed walk is the sum of the moves.
pub proof fn lemma_replay_depth(encoding: Encoding, visits: Seq<Visit>)
    ensures
        replay(encoding, visits).depth == depth_after(visits),
    decreases visits.len(),
{
    if visits.len() > 0 {
        lemma_replay_depth(encoding, visits.drop_last());
    }
}

/// One more event taken: the visits so far, and the visit of that event.
proof fn lemma_take_next(events: Seq<TreeEventModel>, n: int)
    requires
        0 <= n < events.len(),
    ensures
        events.take(n + 1).drop_last() == events.take(n),
        events.take(n + 1).last() == events[n],
        visits_of(events.take(n + 1)).drop_last() == visits_of(events.take(n)),
        visits_of(events.take(n + 1)).last() == (Visit {
            depth_delta: events[n]->depth_delta,
            entry: events[n]->entry,
        }),
{
    assert(events.take(n + 1).drop_last() =~= events.take(n));
    assert(visits_of(events.take(n + 1)).drop_last() =~= visits_of(events.take(n)));
}

/// How a walk over a whole sequence of events ended.
pub struct WalkReport {
    /// The records gathered from the events that were visited.
    pub table: SymbolTable,
    /// How many events were visited.
    pub visited: usize,
    /// Why the walk stopped early, if it did.
    pub error: Option<WalkError>,
}

/// Walks the events of one unit in order and gathers the symbol table.
///
/// The walk stops at the first event that is malformed or that takes the
/// depth out of range, and reports it; what the events before it gave stays
/// in the table.
pub fn walk(encoding: Encoding, events: &Vec<TreeEvent>) -> (report: WalkReport)
    ensures
        report.visited <= events@.len(),
        walkable(events_of(events@).take(report.visited as int)),
        report.visited < events@.len() ==> !walkable(
            events_of(events@).take(report.visited + 1),
        ),
        report.error == stop_reason(events_of(events@), report.visited as int),
        report.table@ == replay(
            encoding,
            visits_of(events_of(events@).take(report.visited as int)),
        ).table,
{
    let ghost all = events_of(events@);
    let mut walker = Walker::new(encoding);
    let mut i: usize = 0;
    while i < events.len()
        invariant
            i <= events@.len(),
            all == events_of(events@),
            walker.encoding() == encoding,
            walkable(all.take(i as int)),
            walker@ == replay(encoding, visits_of(all.take(i as int))),
        decreases events@.len() - i,
    {
        proof {
            lemma_take_next(all, i as int);
            lemma_replay_depth(encoding, visits_of(all.take(i as int)));
        }
        match &events[i] {
            TreeEvent::Malformed => {
                return WalkReport {
                    table: walker.finish(),
                    visited: i,
                    error: Some(WalkError::MalformedTree),
                };
            },
            TreeEvent::Entry { depth_delta, entry } => {
                match walker.visit(*depth_delta, entry) {
                    Ok(_) => {},
                    Err(error) => {
                        return WalkReport { table: walker.finish(), visited: i, error: Some(error) };
                    },
                }
            },
        }
        i += 1;
    }
    WalkReport { table: walker.finish(), visited: i, error: None }
}

} // verus!
