//! The history of the draws of many sessions.
//!
//! A history gathers the logs of sessions and turns them into the lines of
//! the history file: one line for each size of die, with the time, the
//! version of the program and the draws. Writing the lines to the file is
//! left to the caller.

use crate::log::{RollLog, MAX_LOGGED, MAX_SIZES};
use crate::text::{append_integer, push_char};
use hashbrown::HashMap;
use std::path::Path;
use vstd::prelude::*;
use vstd::string::StringExecFns;

verus! {

/// The map behind a history.
#[verifier::external_body]
#[derive(Debug)]
pub struct Records {
    entries: HashMap<i32, Vec<i32>>,
}

/// The draws that `records` holds for each size of die, first drawn first.
pub uninterp spec fn recorded(records: Records) -> Map<i32, Seq<i32>>;

impl Records {
    /// `HashMap::new`: a map that holds nothing.
    #[verifier::external_body]
    fn new() -> (records: Records)
        ensures
            recorded(records) == crate::log::nothing(),
    {
        Records { entries: HashMap::new() }
    }

    /// `HashMap::len`: the number of sizes that a list is held for.
    #[verifier::external_body]
    fn len(&self) -> (count: usize)
        requires
            recorded(*self).dom().finite(),
        ensures
            count == recorded(*self).dom().len(),
    {
        self.entries.len()
    }

    /// `HashMap::entry`, `Entry::or_default` and `Vec::extend`: appends
    /// `values` to the list of `max`, which is made if it is not there. The
    /// map grows only for a size that it does not hold. Map and list panic
    /// when they have to grow beyond the address space, which cannot
    /// happen below `MAX_SIZES` sizes and up to `MAX_LOGGED` values.
    #[verifier::external_body]
    fn extend(&mut self, max: i32, values: &Vec<i32>)
        requires
            recorded(*old(self)).dom().finite(),
            recorded(*old(self)).contains_key(max) || recorded(*old(self)).dom().len() < MAX_SIZES,
            crate::log::draws_for(recorded(*old(self)), max).len() + values.len() <= MAX_LOGGED,
        ensures
            recorded(*final(self)) == recorded(*old(self)).insert(
                max,
                crate::log::draws_for(recorded(*old(self)), max) + values@,
            ),
        no_unwind
    {
        self.entries.entry(max).or_default().extend(values)
    }

    /// `HashMap::iter` and `Vec::clone`: hands out the sizes, each once and
    /// with its draws, in no order that could be told beforehand.
    #[verifier::external_body]
    fn entries(&self) -> (entries: Vec<(i32, Vec<i32>)>)
        requires
            recorded(*self).dom().finite(),
        ensures
            crate::log::lists(entries@, recorded(*self)),
            entries.len() == recorded(*self).dom().len(),
    {
        self.entries.iter().map(|(max, values)| (*max, values.clone())).collect()
    }
}

/// Where `max` stands among the first `upto` entries, or -1 if it does not.
pub open spec fn position(entries: Seq<(i32, Vec<i32>)>, upto: int, max: i32) -> int
    decreases upto,
{
    if upto <= 0 {
        -1
    } else if entries[upto - 1].0 == max {
        upto - 1
    } else {
        position(entries, upto - 1, max)
    }
}

/// The draws that the first `upto` entries hold for `max`.
pub open spec fn entered(entries: Seq<(i32, Vec<i32>)>, upto: int, max: i32) -> Seq<i32> {
    if position(entries, upto, max) >= 0 {
        entries[position(entries, upto, max)].1@
    } else {
        Seq::empty()
    }
}

/// What a history holds after the first `upto` entries of a log are added
/// to what it held.
pub open spec fn gathered(
    held: Map<i32, Seq<i32>>,
    entries: Seq<(i32, Vec<i32>)>,
    upto: int,
) -> Map<i32, Seq<i32>> {
    Map::new(
        |max: i32| held.contains_key(max) || position(entries, upto, max) >= 0,
        |max: i32| crate::log::draws_for(held, max) + entered(entries, upto, max),
    )
}

/// What a history holds after a log is added to what it held: for each
/// size of either the draws held before, followed by the draws of the log.
pub open spec fn merged(held: Map<i32, Seq<i32>>, added: Map<i32, Seq<i32>>) -> Map<
    i32,
    Seq<i32>,
> {
    Map::new(
        |max: i32| held.contains_key(max) || added.contains_key(max),
        |max: i32| crate::log::draws_for(held, max) + crate::log::draws_for(added, max),
    )
}

/// A position that is found holds what was looked for.
proof fn lemma_position(entries: Seq<(i32, Vec<i32>)>, upto: int, max: i32)
    requires
        0 <= upto <= entries.len(),
    ensures
        -1 <= position(entries, upto, max) < upto,
        position(entries, upto, max) >= 0 ==> entries[position(entries, upto, max)].0 == max,
        position(entries, upto, max) < 0 ==> forall|i: int|
            0 <= i < upto ==> (#[trigger] entries[i]).0 != max,
    decreases upto,
{
    if upto > 0 && entries[upto - 1].0 != max {
        lemma_position(entries, upto - 1, max);
    }
}

/// Adding the entries of a log one after the other, in whatever order they
/// come, gives the merged history.
proof fn lemma_gathered_all(
    held: Map<i32, Seq<i32>>,
    entries: Seq<(i32, Vec<i32>)>,
    added: Map<i32, Seq<i32>>,
)
    requires
        crate::log::lists(entries, added),
    ensures
        gathered(held, entries, entries.len() as int) == merged(held, added),
{
    let all = entries.len() as int;
    let one = gathered(held, entries, all);
    let other = merged(held, added);
    assert forall|max: i32| #[trigger]
        one.contains_key(max) == other.contains_key(max) && (one.contains_key(max) ==> one[max]
            == other[max]) by {
        lemma_position(entries, all, max);
        if added.contains_key(max) {
            let i = choose|i: int| 0 <= i < entries.len() && (#[trigger] entries[i]).0 == max;
            assert(entries[i].0 == max);
        }
        if position(entries, all, max) >= 0 {
            assert(added.contains_key(entries[position(entries, all, max)].0));
        }
    }
    assert(one =~= other);
}

/// Adding one more entry, of a size that none before it has, appends its
/// draws to those held for its size.
proof fn lemma_gathered_next(held: Map<i32, Seq<i32>>, entries: Seq<(i32, Vec<i32>)>, upto: int)
    requires
        0 <= upto < entries.len(),
        forall|i: int, j: int|
            0 <= i < j < entries.len() ==> (#[trigger] entries[i]).0 != (#[trigger] entries[j]).0,
    ensures
        crate::log::draws_for(gathered(held, entries, upto), entries[upto].0)
            == crate::log::draws_for(held, entries[upto].0),
        gathered(held, entries, upto + 1) == gathered(held, entries, upto).insert(
            entries[upto].0,
            crate::log::draws_for(held, entries[upto].0) + entries[upto].1@,
        ),
{
    let key = entries[upto].0;
    lemma_position(entries, upto, key);
    assert(position(entries, upto, key) < 0) by {
        if position(entries, upto, key) >= 0 {
            assert(entries[position(entries, upto, key)].0 != entries[upto].0);
        }
    }
    assert(crate::log::draws_for(held, key) + Seq::<i32>::empty() =~= crate::log::draws_for(
        held,
        key,
    ));
    assert(gathered(held, entries, upto + 1) =~= gathered(held, entries, upto).insert(
        key,
        crate::log::draws_for(held, key) + entries[upto].1@,
    ));
}

/// The sizes gathered from the first `upto` entries are finitely many, at
/// most `upto` more than were held.
proof fn lemma_gathered_sizes(held: Map<i32, Seq<i32>>, entries: Seq<(i32, Vec<i32>)>, upto: int)
    requires
        0 <= upto <= entries.len(),
        held.dom().finite(),
    ensures
        gathered(held, entries, upto).dom().finite(),
        gathered(held, entries, upto).dom().len() <= held.dom().len() + upto,
    decreases upto,
{
    if upto == 0 {
        assert(gathered(held, entries, 0).dom() =~= held.dom());
    } else {
        lemma_gathered_sizes(held, entries, upto - 1);
        assert(gathered(held, entries, upto).dom() =~= gathered(held, entries, upto - 1).dom().insert(
            entries[upto - 1].0,
        ));
    }
}

/// The draws of the sessions gathered so far, and the file that they are to
/// be appended to.
#[derive(Debug)]
pub struct History<'a> {
    path: &'a Path,
    history: Records,
    count: usize,
}

impl<'a> View for History<'a> {
    type V = Map<i32, Seq<i32>>;

    closed spec fn view(&self) -> Map<i32, Seq<i32>> {
        recorded(self.history)
    }
}

impl<'a> History<'a> {
    #[verifier::type_invariant]
    spec fn bounded(self) -> bool {
        &&& crate::log::within(recorded(self.history), self.count as int)
        &&& self.count <= MAX_LOGGED
        &&& recorded(self.history).dom().len() <= MAX_SIZES
    }

    /// The number of draws gathered.
    pub closed spec fn count(&self) -> nat {
        self.count as nat
    }

    /// The file that the history is to be appended to.
    pub closed spec fn file(&self) -> &'a Path {
        self.path
    }

    /// A history for the file at `path`, with no draws yet.
    pub fn new(path: &'a Path) -> (history: Self)
        ensures
            history@ == crate::log::nothing(),
            history.count() == 0,
            history.file() == path,
    {
        History { path, history: Records::new(), count: 0 }
    }

    /// The file that the history is to be appended to.
    pub fn path(&self) -> (path: &'a Path)
        ensures
            path == self.file(),
    {
        self.path
    }

    /// The number of draws gathered.
    pub fn len(&self) -> (count: usize)
        ensures
            count == self.count(),
            count <= MAX_LOGGED,
    {
        proof {
            use_type_invariant(self);
        }
        self.count
    }

    /// The number of sizes of die that draws are gathered for.
    pub fn sizes(&self) -> (count: usize)
        ensures
            self@.dom().finite(),
            count == self@.dom().len(),
            count <= MAX_SIZES,
    {
        proof {
            use_type_invariant(self);
        }
        self.history.len()
    }

    /// Adds the draws of `log`: for each size of die they come behind the
    /// draws gathered before. There has to be room for the draws, and for
    /// the sizes even if none of them is held yet.
    pub fn append_log(&mut self, log: RollLog)
        requires
            old(self).count() + log.count() <= MAX_LOGGED,
            old(self)@.dom().len() + log@.dom().len() <= MAX_SIZES,
        ensures
            final(self)@ == merged(old(self)@, log@),
            final(self).count() == old(self).count() + log.count(),
            final(self).file() == old(self).file(),
    {
        let ghost held = recorded(self.history);
        let ghost before = self.count as int;
        let added: usize = log.len();
        let entries = log.into_entries();
        proof {
            use_type_invariant(&*self);
            assert(gathered(held, entries@, 0) =~= held);
        }
        self.count = self.count + added;
        let mut at: usize = 0;
        while at < entries.len()
            invariant
                at <= entries.len() <= added,
                self.count == before + added <= MAX_LOGGED,
                held.dom().len() + entries.len() <= MAX_SIZES,
                self.path == old(self).path,
                crate::log::within(held, before),
                crate::log::lists(entries@, log@),
                forall|i: int| 0 <= i < entries.len() ==> (#[trigger] entries[i]).1.len() <= added,
                recorded(self.history) == gathered(held, entries@, at as int),
                forall|max: i32|
                    recorded(self.history).contains_key(max) ==> (#[trigger] recorded(
                        self.history,
                    )[max]).len() <= before + added,
            decreases entries.len() - at,
        {
            let max: i32 = entries[at].0;
            proof {
                lemma_gathered_next(held, entries@, at as int);
                lemma_gathered_sizes(held, entries@, at as int);
                lemma_gathered_sizes(held, entries@, at + 1);
                assert(crate::log::draws_for(held, max).len() <= before);
                let after = recorded(self.history).insert(
                    max,
                    crate::log::draws_for(held, max) + entries[at as int].1@,
                );
                assert forall|size: i32| after.contains_key(size) implies (#[trigger] after[size]).len()
                    <= before + added by {
                    if size != max {
                        assert(recorded(self.history).contains_key(size));
                    }
                }
            }
            self.history.extend(max, &entries[at].1);
            at = at + 1;
        }
        proof {
            lemma_gathered_all(held, entries@, log@);
        }
    }

    /// Hands out the sizes, each once and with its draws, in no order that
    /// could be told beforehand.
    pub fn entries(&self) -> (entries: Vec<(i32, Vec<i32>)>)
        ensures
            crate::log::lists(entries@, self@),
    {
        proof {
            use_type_invariant(self);
        }
        self.history.entries()
    }
}

/// The numbers of `values` in decimal, with commas between them.
pub open spec fn listed(values: Seq<i32>) -> Seq<char>
    decreases values.len(),
{
    if values.len() == 0 {
        Seq::empty()
    } else if values.len() == 1 {
        crate::text::integer_text(values[0] as int)
    } else {
        listed(values.drop_last()) + seq![','] + crate::text::integer_text(values.last() as int)
    }
}

/// The line of the history file for the draws of one size of die: the
/// time, the version of the program and the size, then the draws.
pub open spec fn record_line(
    timestamp: Seq<char>,
    version: Seq<char>,
    max: i32,
    values: Seq<i32>,
) -> Seq<char> {
    timestamp + seq!['|'] + version + seq!['|'] + crate::text::integer_text(max as int) + seq![':']
        + listed(values)
}

/// Appends the numbers of `values` in decimal, with commas between them.
fn append_values(text: &mut String, values: &Vec<i32>)
    ensures
        final(text)@ == old(text)@ + listed(values@),
{
    let mut at: usize = 0;
    assert(old(text)@ + listed(values@.take(0)) =~= old(text)@);
    while at < values.len()
        invariant
            at <= values.len(),
            text@ == old(text)@ + listed(values@.take(at as int)),
        decreases values.len() - at,
    {
        let ghost done = text@;
        if at > 0 {
            push_char(text, ',');
        }
        append_integer(text, values[at]);
        proof {
            let next = values@.take(at + 1);
            assert(next.drop_last() =~= values@.take(at as int));
            assert(next.last() == values@[at as int]);
            assert(next[0] == values@[0]);
            if at == 0 {
                assert(text@ =~= old(text)@ + listed(next));
            } else {
                assert(done.push(',') + crate::text::integer_text(values@[at as int] as int)
                    =~= old(text)@ + listed(next));
            }
        }
        at = at + 1;
    }
    assert(values@.take(at as int) =~= values@);
}

/// Writes the numbers of `values` in decimal, with commas between them.
pub fn format_values(values: &Vec<i32>) -> (text: String)
    ensures
        text@ == listed(values@),
{
    let mut text = String::new();
    append_values(&mut text, values);
    assert(Seq::<char>::empty() + listed(values@) =~= listed(values@));
    text
}

/// Writes the line of the history file for the draws of one size of die.
pub fn format_record(timestamp: &str, version: &str, max: i32, values: &Vec<i32>) -> (line: String)
    ensures
        line@ == record_line(timestamp@, version@, max, values@),
{
    let mut line = String::from_str(timestamp);
    push_char(&mut line, '|');
    line.append(version);
    push_char(&mut line, '|');
    append_integer(&mut line, max);
    push_char(&mut line, ':');
    append_values(&mut line, values);
    proof {
        assert(line@ =~= record_line(timestamp@, version@, max, values@));
    }
    line
}

} // verus!
