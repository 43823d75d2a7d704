//! A parser for each task, by the task's name.

use vstd::prelude::*;
use crate::stream_state::{ParserModel, StreamState};
use crate::task::{TerminalLocation, TerminalSize};
use crate::text::same_text;

verus! {

/// What a translator holds: the parsers in the order in which their names
/// came first, each under its name.
pub struct Streams {
    pub keys: Seq<Seq<char>>,
    pub parsers: Seq<ParserModel>,
}

impl Streams {
    /// Every name has its parser, no name stands twice, and the parsers are
    /// well formed.
    pub open spec fn wf(self) -> bool {
        &&& self.keys.len() == self.parsers.len()
        &&& forall|i: int, j: int|
            0 <= i < j < self.keys.len() ==> #[trigger] self.keys[i] != #[trigger] self.keys[j]
        &&& forall|i: int| 0 <= i < self.parsers.len() ==> (#[trigger] self.parsers[i]).wf()
    }

    /// Whether a parser stands under the name `id`.
    pub open spec fn has(self, id: Seq<char>) -> bool {
        exists|i: int| 0 <= i < self.keys.len() && #[trigger] self.keys[i] == id
    }

    /// Where the parser with the name `id` stands.
    pub open spec fn position(self, id: Seq<char>) -> int
        recommends
            self.has(id),
    {
        choose|i: int| 0 <= i < self.keys.len() && #[trigger] self.keys[i] == id
    }
}

pub struct Vt100Translator {
    keys: Vec<String>,
    streams: Vec<StreamState>,
}

impl View for Vt100Translator {
    type V = Streams;

    closed spec fn view(&self) -> Streams {
        Streams {
            keys: Seq::new(self.keys@.len(), |i: int| self.keys@[i]@),
            parsers: Seq::new(self.streams@.len(), |i: int| self.streams@[i]@),
        }
    }
}

impl Vt100Translator {
    pub fn new() -> (t: Vt100Translator)
        ensures
            t@.keys.len() == 0,
            t@.parsers.len() == 0,
            t@.wf(),
    {
        Vt100Translator { keys: Vec::new(), streams: Vec::new() }
    }

    /// Where the parser with the name `id` stands, if there is one.
    fn find(&self, id: &str) -> (r: Option<usize>)
        requires
            self@.keys.len() == self@.parsers.len(),
        ensures
            match r {
                Some(i) => i < self@.keys.len() && self@.keys[i as int] == id@,
                None => !self@.has(id@),
            },
    {
        let mut i: usize = 0;
        while i < self.keys.len()
            invariant
                i <= self.keys.len(),
                forall|k: int| 0 <= k < i ==> #[trigger] self@.keys[k] != id@,
            decreases self.keys.len() - i,
        {
            if same_text(self.keys[i].as_str(), id) {
                assert(self@.keys[i as int] == id@);
                return Some(i);
            }
            i += 1;
        }
        None
    }

    /// Gives the task `task_id` a parser that has seen nothing, in place of
    /// the one it had, if any. Where the task is shown plays no part.
    pub fn register(&mut self, task_id: String, location: TerminalLocation, size: TerminalSize)
        requires
            old(self)@.wf(),
        ensures
            final(self)@.wf(),
            final(self)@.has(task_id@),
            old(self)@.has(task_id@) ==> final(self)@ == (Streams {
                parsers: old(self)@.parsers.update(
                    old(self)@.position(task_id@),
                    ParserModel::initial(),
                ),
                ..old(self)@
            }),
            !old(self)@.has(task_id@) ==> final(self)@ == (Streams {
                keys: old(self)@.keys.push(task_id@),
                parsers: old(self)@.parsers.push(ParserModel::initial()),
            }),
    {
        let ss = StreamState::new();
        match self.find(task_id.as_str()) {
            Some(i) => {
                proof {
                    let at = old(self)@.position(task_id@);
                    assert(old(self)@.keys[at] == task_id@);
                    assert(at == i);
                }
                self.streams[i] = ss;
                assert(self@.parsers =~= old(self)@.parsers.update(
                    i as int,
                    ParserModel::initial(),
                ));
                assert(self@.keys =~= old(self)@.keys);
                assert(self@.keys[i as int] == task_id@);
            },
            None => {
                self.keys.push(task_id);
                self.streams.push(ss);
                assert(self@.keys =~= old(self)@.keys.push(task_id@));
                assert(self@.parsers =~= old(self)@.parsers.push(ParserModel::initial()));
                assert(self@.keys[self@.keys.len() - 1] == task_id@);
            },
        }
    }

    /// Writes nothing: a translator keeps what it was fed.
    pub fn write(&mut self, target: &mut Vec<u8>)
        ensures
            final(self)@ == old(self)@,
            final(target)@ == old(target)@,
    {
    }

    /// Feeds `data` to the parser of the task `task_id`. Data for a task
    /// without a parser is dropped.
    pub fn push(&mut self, task_id: String, data: &String)
        requires
            old(self)@.wf(),
        ensures
            final(self)@.wf(),
            old(self)@.has(task_id@) ==> final(self)@ == (Streams {
                parsers: old(self)@.parsers.update(
                    old(self)@.position(task_id@),
                    old(self)@.parsers[old(self)@.position(task_id@)].feed(data@),
                ),
                ..old(self)@
            }),
            !old(self)@.has(task_id@) ==> final(self)@ == old(self)@,
    {
        match self.find(task_id.as_str()) {
            None => {},
            Some(i) => {
                proof {
                    let at = old(self)@.position(task_id@);
                    assert(old(self)@.keys[at] == task_id@);
                    assert(at == i);
                }
                let ghost before = self.streams@;
                assert(self@.parsers[i as int] == before[i as int]@);
                self.streams[i].push(data.as_str());
                assert forall|k: int| 0 <= k < before.len() && k != i implies self.streams@[k]
                    == before[k] by {}
                assert(self@.parsers =~= old(self)@.parsers.update(
                    i as int,
                    old(self)@.parsers[i as int].feed(data@),
                ));
                assert(self@.keys =~= old(self)@.keys);
                proof {
                    assert forall|k: int| 0 <= k < self@.parsers.len() implies (
                    #[trigger] self@.parsers[k]).wf() by {
                        assert(old(self)@.parsers[k].wf());
                    }
                }
            },
        }
    }
}

} // verus!
