//! The stopwatch: an append-only log of timestamped markers with nested
//! scopes.
//!
//! A reading carries a marker, the time at which it was taken and the
//! marker of its parent. Opening a scope puts a marker on a stack; a
//! reading taken after that has the top of the stack as its parent.

use crate::clock::{is_reading, timestamp_text, Timestamp};
use crate::registry::{Entry, Registry};
use vstd::prelude::*;

verus! {

/// A marker.
pub type Marker = String;

/// One reading of the stopwatch.
#[derive(Debug)]
pub struct Reading {
    pub marker: Marker,
    pub timestamp: Timestamp,
    pub parent: Marker,
}

/// A reading as plain values.
pub struct ReadingView {
    pub marker: Seq<char>,
    pub timestamp: Timestamp,
    pub parent: Seq<char>,
}

impl View for Reading {
    type V = ReadingView;

    open spec fn view(&self) -> ReadingView {
        ReadingView { marker: self.marker@, timestamp: self.timestamp, parent: self.parent@ }
    }
}

impl Reading {
    /// A reading.
    pub fn new(marker: Marker, timestamp: Timestamp, parent: Marker) -> (reading: Self)
        ensures
            reading == (Reading { marker, timestamp, parent }),
    {
        Reading { marker, timestamp, parent }
    }

    /// A copy of the reading.
    pub fn duplicate(&self) -> (copy: Self)
        ensures
            copy == *self,
    {
        Reading {
            marker: self.marker.clone(),
            timestamp: self.timestamp,
            parent: self.parent.clone(),
        }
    }
}

/// The views of a list of readings.
pub open spec fn readings_view(readings: Seq<Reading>) -> Seq<ReadingView> {
    readings.map_values(|r: Reading| r@)
}

/// The views of a list of markers.
pub open spec fn markers_view(markers: Seq<Marker>) -> Seq<Seq<char>> {
    markers.map_values(|m: Marker| m@)
}

/// Readings by parent.
pub type Groups = Seq<(Seq<char>, Seq<ReadingView>)>;

/// Whether a group for `parent` is among `groups`.
pub open spec fn has_group(groups: Groups, parent: Seq<char>) -> bool {
    exists|i: int| 0 <= i < groups.len() && groups[i].0 == parent
}

/// `groups` with `reading` behind the readings of its parent's group, or
/// in a new group at the end where its parent has none.
pub open spec fn add_to_group(groups: Groups, reading: ReadingView) -> Groups {
    if has_group(groups, reading.parent) {
        Seq::new(
            groups.len(),
            |i: int|
                if groups[i].0 == reading.parent {
                    (groups[i].0, groups[i].1.push(reading))
                } else {
                    groups[i]
                },
        )
    } else {
        groups.push((reading.parent, seq![reading]))
    }
}

/// The readings grouped by parent: the groups in the order in which their
/// parents first occur, and the readings of a group in the order in which
/// they were taken.
pub open spec fn grouped(readings: Seq<ReadingView>) -> Groups
    decreases readings.len(),
{
    if readings.len() == 0 {
        Seq::empty()
    } else {
        add_to_group(grouped(readings.drop_last()), readings.last())
    }
}

/// The view of a table of groups.
pub open spec fn groups_view(rows: Seq<Entry<Vec<Reading>>>) -> Groups {
    Seq::new(rows.len(), |i: int| (rows[i].name@, readings_view(rows[i].value@)))
}

/// The stopwatch.
#[derive(Debug)]
pub struct Stopwatch {
    readings: Vec<Reading>,
    parents: Vec<Marker>,
}

/// A stopwatch as plain values.
pub struct StopwatchView {
    /// The readings, oldest first.
    pub readings: Seq<ReadingView>,
    /// The stack of open scopes, the innermost last.
    pub parents: Seq<Seq<char>>,
}

impl View for Stopwatch {
    type V = StopwatchView;

    closed spec fn view(&self) -> StopwatchView {
        StopwatchView {
            readings: readings_view(self.readings@),
            parents: markers_view(self.parents@),
        }
    }
}

impl StopwatchView {
    /// The parent of a reading of `marker` that names none: the innermost
    /// open scope, or the marker itself where no scope is open.
    pub open spec fn parent_for(self, marker: Seq<char>) -> Seq<char> {
        if self.parents.len() > 0 {
            self.parents.last()
        } else {
            marker
        }
    }

    /// The stopwatch after a reading.
    pub open spec fn with_reading(self, reading: ReadingView) -> StopwatchView {
        StopwatchView { readings: self.readings.push(reading), ..self }
    }
}

/// The line that opens a group.
pub open spec fn group_line(parent: Seq<char>) -> Seq<char> {
    " - Marker: "@ + parent + ",\n"@
}

/// The line of a reading.
pub open spec fn reading_line(reading: ReadingView) -> Seq<char> {
    "  - "@ + reading.marker + ": "@ + timestamp_text(reading.timestamp) + ",\n"@
}

/// The lines of the first `count` readings.
pub open spec fn reading_lines(readings: Seq<ReadingView>, count: nat) -> Seq<char>
    decreases count,
{
    if count == 0 || count > readings.len() {
        Seq::empty()
    } else {
        reading_lines(readings, (count - 1) as nat) + reading_line(readings[count - 1])
    }
}

/// The lines of the first `count` groups, each with its readings.
pub open spec fn group_lines(groups: Groups, count: nat) -> Seq<char>
    decreases count,
{
    if count == 0 || count > groups.len() {
        Seq::empty()
    } else {
        group_lines(groups, (count - 1) as nat) + group_line(groups[count - 1].0) + reading_lines(
            groups[count - 1].1,
            groups[count - 1].1.len(),
        )
    }
}

/// The rendering of groups of readings.
pub open spec fn rendering(groups: Groups) -> Seq<char> {
    "Stopwatch\n"@ + group_lines(groups, groups.len())
}

/// Renders groups of readings: a heading, then each group with a line of
/// its own and a line for each of its readings.
pub fn render_groups(groups: &Registry<Vec<Reading>>) -> (text: String)
    ensures
        text@ == rendering(groups_view(groups.rows())),
{
    let ghost view = groups_view(groups.rows());
    let mut text = String::from_str("Stopwatch\n");
    let mut i: usize = 0;
    while i < groups.len()
        invariant
            i <= groups.rows().len(),
            view == groups_view(groups.rows()),
            text@ == "Stopwatch\n"@ + group_lines(view, i as nat),
        decreases groups.rows().len() - i,
    {
        text.append(" - Marker: ");
        text.append(groups.name_at(i).as_str());
        text.append(",\n");
        let readings = groups.value_at(i);
        let ghost lines = readings_view(readings@);
        assert(lines == view[i as int].1);
        let ghost head = "Stopwatch\n"@ + group_lines(view, i as nat) + group_line(view[i as int].0);
        assert(text@ =~= head);
        let mut k: usize = 0;
        while k < readings.len()
            invariant
                k <= readings@.len(),
                lines == readings_view(readings@),
                text@ == head + reading_lines(lines, k as nat),
            decreases readings@.len() - k,
        {
            text.append("  - ");
            text.append(readings[k].marker.as_str());
            text.append(": ");
            text.append(readings[k].timestamp.render().as_str());
            text.append(",\n");
            assert(text@ =~= head + reading_lines(lines, (k + 1) as nat));
            k += 1;
        }
        assert(text@ =~= "Stopwatch\n"@ + group_lines(view, (i + 1) as nat));
        i += 1;
    }
    text
}

impl Stopwatch {
    /// A stopwatch without readings and without open scopes.
    pub fn new() -> (stopwatch: Self)
        ensures
            stopwatch@.readings.len() == 0,
            stopwatch@.parents.len() == 0,
    {
        Stopwatch { readings: Vec::new(), parents: Vec::new() }
    }

    /// Number of readings.
    pub fn len(&self) -> (n: usize)
        ensures
            n == self@.readings.len(),
    {
        self.readings.len()
    }

    /// Takes a reading of `marker` below `parent` at the time `time`.
    pub fn read_at(&mut self, marker: &str, parent: &str, time: Timestamp) -> (taken: Timestamp)
        ensures
            taken == time,
            final(self)@ == old(self)@.with_reading(
                ReadingView { marker: marker@, timestamp: time, parent: parent@ },
            ),
    {
        let ghost held = self.readings@;
        let reading = Reading::new(String::from_str(marker), time, String::from_str(parent));
        self.readings.push(reading);
        assert(readings_view(self.readings@) =~= readings_view(held).push(reading@));
        time
    }

    /// Takes a reading of `marker` below `parent` now, and gives the time.
    pub fn read_to(&mut self, marker: &str, parent: &str) -> (taken: Timestamp)
        ensures
            is_reading(taken),
            final(self)@ == old(self)@.with_reading(
                ReadingView { marker: marker@, timestamp: taken, parent: parent@ },
            ),
    {
        self.read_at(marker, parent, Timestamp::now())
    }

    /// Takes a reading of `marker` now, below the innermost open scope, or
    /// below itself where no scope is open.
    pub fn read(&mut self, marker: &str) -> (taken: Timestamp)
        ensures
            is_reading(taken),
            final(self)@ == old(self)@.with_reading(
                ReadingView {
                    marker: marker@,
                    timestamp: taken,
                    parent: old(self)@.parent_for(marker@),
                },
            ),
    {
        let parent = if self.parents.len() > 0 {
            self.parents[self.parents.len() - 1].clone()
        } else {
            String::from_str(marker)
        };
        self.read_to(marker, parent.as_str())
    }

    /// Takes a reading of `marker` now, below itself.
    pub fn read_start(&mut self, marker: &str) -> (taken: Timestamp)
        ensures
            is_reading(taken),
            final(self)@ == old(self)@.with_reading(
                ReadingView { marker: marker@, timestamp: taken, parent: marker@ },
            ),
    {
        self.read_to(marker, marker)
    }

    /// Opens a scope: `marker` is the parent of the readings to come. The
    /// answer is the scope that was the innermost before.
    pub fn new_parent(&mut self, marker: &str) -> (before: Option<Marker>)
        ensures
            final(self)@ == (StopwatchView {
                parents: old(self)@.parents.push(marker@),
                ..old(self)@
            }),
            match before {
                Some(last) => old(self)@.parents.len() > 0 && last@ == old(self)@.parents.last(),
                None => old(self)@.parents.len() == 0,
            },
    {
        let last = if self.parents.len() > 0 {
            Some(self.parents[self.parents.len() - 1].clone())
        } else {
            None
        };
        let ghost held = self.parents@;
        self.parents.push(String::from_str(marker));
        assert(markers_view(self.parents@) =~= markers_view(held).push(marker@));
        last
    }

    /// The scope that was opened as number `idx`.
    pub fn get_parent(&self, idx: usize) -> (parent: Option<&Marker>)
        ensures
            match parent {
                Some(marker) => idx < self@.parents.len() && marker@ == self@.parents[idx as int],
                None => idx >= self@.parents.len(),
            },
    {
        if idx < self.parents.len() {
            Some(&self.parents[idx])
        } else {
            None
        }
    }

    /// The readings grouped by parent; see [`grouped`].
    pub fn readings(&self) -> (groups: Registry<Vec<Reading>>)
        ensures
            groups.wf(),
            groups_view(groups.rows()) == grouped(self@.readings),
    {
        let ghost all = readings_view(self.readings@);
        let mut groups: Registry<Vec<Reading>> = Registry::new();
        let mut i: usize = 0;
        assert(all.take(0) =~= Seq::<ReadingView>::empty());
        assert(groups_view(groups.rows()) =~= grouped(all.take(0)));
        while i < self.readings.len()
            invariant
                i <= self.readings@.len(),
                all == readings_view(self.readings@),
                groups.wf(),
                groups_view(groups.rows()) == grouped(all.take(i as int)),
            decreases self.readings@.len() - i,
        {
            let reading = self.readings[i].duplicate();
            let ghost before = groups_view(groups.rows());
            let ghost names = groups.names();
            proof {
                assert(all.take(i + 1).drop_last() =~= all.take(i as int));
                assert(all.take(i + 1).last() == reading@);
                if groups.has(reading.parent@) {
                    let k = names.index_of(reading.parent@);
                    assert(before[k].0 == reading.parent@);
                }
                if has_group(before, reading.parent@) {
                    let k = choose|k: int| 0 <= k < before.len() && before[k].0 == reading.parent@;
                    assert(names[k] == reading.parent@);
                }
            }
            match groups.position(reading.parent.as_str()) {
                Some(at) => {
                    let mut held = groups.replace_at(at, Vec::new());
                    let ghost items = held@;
                    held.push(reading);
                    groups.replace_at(at, held);
                    proof {
                        assert(readings_view(items.push(reading)) =~= readings_view(items).push(
                            reading@,
                        ));
                        let after = groups_view(groups.rows());
                        assert forall|j: int| 0 <= j < before.len() implies after[j]
                            == add_to_group(before, reading@)[j] by {
                            if j != at {
                                assert(names[j] != names[at as int]);
                            }
                        }
                        assert(after =~= add_to_group(before, reading@));
                    }
                },
                None => {
                    let mut items: Vec<Reading> = Vec::new();
                    let parent = reading.parent.clone();
                    items.push(reading);
                    groups.insert(parent, items);
                    proof {
                        assert(readings_view(items@) =~= seq![reading@]);
                        assert(groups_view(groups.rows()) =~= before.push(
                            (reading.parent@, seq![reading@]),
                        ));
                    }
                },
            }
            i += 1;
        }
        assert(all.take(self.readings@.len() as int) =~= all);
        groups
    }

    /// The stopwatch as text: the readings grouped by parent.
    pub fn render(&self) -> (text: String)
        ensures
            text@ == rendering(grouped(self@.readings)),
    {
        let groups = self.readings();
        render_groups(&groups)
    }
}

impl Default for Stopwatch {
    fn default() -> (stopwatch: Self)
        ensures
            stopwatch@.readings.len() == 0,
            stopwatch@.parents.len() == 0,
    {
        Stopwatch::new()
    }
}

} // verus!
