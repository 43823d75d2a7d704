//! The panes of a dashboard, by the names of their tasks.

use vstd::prelude::*;
use vstd::utf8::encode_utf8;
use crate::glyph_string::cursor_to;
use crate::pane::{Pane, PaneModel};
use crate::style::TerminalError;
use crate::text::same_text;

verus! {

/// What a pane manager holds: the panes in the order in which their names
/// came first, each under its name.
pub struct Registry {
    pub keys: Seq<Seq<char>>,
    pub panes: Seq<PaneModel>,
}

/// What drawing the first `upto` of the panes writes, as UTF-8.
pub open spec fn render_bytes(panes: Seq<PaneModel>, upto: int) -> Seq<u8>
    decreases upto,
{
    if upto <= 0 {
        Seq::empty()
    } else {
        render_bytes(panes, upto - 1) + encode_utf8(panes[upto - 1].render_output())
    }
}

impl Registry {
    /// Every name has its pane, no name stands twice, and the panes are
    /// well formed.
    pub open spec fn wf(self) -> bool {
        &&& self.keys.len() == self.panes.len()
        &&& forall|i: int, j: int|
            0 <= i < j < self.keys.len() ==> #[trigger] self.keys[i] != #[trigger] self.keys[j]
        &&& forall|i: int| 0 <= i < self.panes.len() ==> (#[trigger] self.panes[i]).wf()
    }

    /// Whether a pane stands under the name `id`.
    pub open spec fn has(self, id: Seq<char>) -> bool {
        exists|i: int| 0 <= i < self.keys.len() && #[trigger] self.keys[i] == id
    }

    /// Where the pane with the name `id` stands.
    pub open spec fn position(self, id: Seq<char>) -> int
        recommends
            self.has(id),
    {
        choose|i: int| 0 <= i < self.keys.len() && #[trigger] self.keys[i] == id
    }

    /// The panes once each of them has been drawn.
    pub open spec fn drawn(self) -> Registry {
        Registry {
            keys: self.keys,
            panes: Seq::new(self.panes.len(), |i: int| self.panes[i].drawn()),
        }
    }
}

pub struct PaneManager {
    keys: Vec<String>,
    panes: Vec<Pane>,
}

impl View for PaneManager {
    type V = Registry;

    closed spec fn view(&self) -> Registry {
        Registry {
            keys: Seq::new(self.keys@.len(), |i: int| self.keys@[i]@),
            panes: Seq::new(self.panes@.len(), |i: int| self.panes@[i]@),
        }
    }
}

impl PaneManager {
    pub fn new() -> (m: PaneManager)
        ensures
            m@.keys.len() == 0,
            m@.panes.len() == 0,
            m@.wf(),
    {
        PaneManager { keys: Vec::new(), panes: Vec::new() }
    }

    /// Where the pane with the name `id` stands, if there is one.
    fn find(&self, id: &str) -> (r: Option<usize>)
        requires
            self@.keys.len() == self@.panes.len(),
        ensures
            match r {
                Some(i) => i < self@.keys.len() && self@.keys[i as int] == id@,
                None => !self@.has(id@),
            },
    {
        let mut i: usize = 0;
        while i < self.keys.len()
            invariant
                i <= self.keys.len(),
                forall|k: int| 0 <= k < i ==> #[trigger] self@.keys[k] != id@,
            decreases self.keys.len() - i,
        {
            if same_text(self.keys[i].as_str(), id) {
                assert(self@.keys[i as int] == id@);
                return Some(i);
            }
            i += 1;
        }
        None
    }

    /// Puts `pane` under the name `task_id`, in place of the pane that
    /// stood there, if any.
    pub fn register(&mut self, task_id: String, pane: Pane)
        requires
            old(self)@.wf(),
            pane@.wf(),
        ensures
            final(self)@.wf(),
            final(self)@.has(task_id@),
            old(self)@.has(task_id@) ==> final(self)@ == (Registry {
                panes: old(self)@.panes.update(old(self)@.position(task_id@), pane@),
                ..old(self)@
            }),
            !old(self)@.has(task_id@) ==> final(self)@ == (Registry {
                keys: old(self)@.keys.push(task_id@),
                panes: old(self)@.panes.push(pane@),
            }),
    {
        match self.find(task_id.as_str()) {
            Some(i) => {
                proof {
                    let at = old(self)@.position(task_id@);
                    assert(old(self)@.keys[at] == task_id@);
                    assert(at == i);
                }
                self.panes[i] = pane;
                assert(self@.panes =~= old(self)@.panes.update(i as int, pane@));
                assert(self@.keys =~= old(self)@.keys);
                assert(self@.keys[i as int] == task_id@);
            },
            None => {
                self.keys.push(task_id);
                self.panes.push(pane);
                assert(self@.keys =~= old(self)@.keys.push(task_id@));
                assert(self@.panes =~= old(self)@.panes.push(pane@));
                assert(self@.keys[self@.keys.len() - 1] == task_id@);
            },
        }
    }

    /// The pane with the name `id`.
    pub fn find_by_id(&self, id: &str) -> (r: Option<&Pane>)
        requires
            self@.wf(),
        ensures
            match r {
                Some(pane) => self@.has(id@) && pane@ == self@.panes[self@.position(id@)],
                None => !self@.has(id@),
            },
    {
        match self.find(id) {
            Some(i) => {
                proof {
                    let at = self@.position(id@);
                    assert(self@.keys[at] == id@);
                    assert(at == i);
                }
                Some(&self.panes[i])
            },
            None => None,
        }
    }

    /// Draws every pane, in order, and then puts the host cursor where the
    /// cursor of the pane named `main` is. What that takes is appended to
    /// `target` as UTF-8. Never fails.
    pub fn write(&mut self, target: &mut Vec<u8>) -> (r: Result<(), TerminalError>)
        requires
            old(self)@.wf(),
            old(self)@.has("main"@),
        ensures
            r is Ok,
            final(self)@ == old(self)@.drawn(),
            final(self)@.wf(),
            final(target)@ == old(target)@ + render_bytes(
                old(self)@.panes,
                old(self)@.panes.len() as int,
            ) + encode_utf8(
                cursor_to(
                    (old(self)@.panes[old(self)@.position("main"@)].y + old(self)@.panes[old(
                        self,
                    )@.position("main"@)].view.cursor.y) as nat,
                    (old(self)@.panes[old(self)@.position("main"@)].x + old(self)@.panes[old(
                        self,
                    )@.position("main"@)].view.cursor.x) as nat,
                ),
            ),
    {
        let n = self.panes.len();
        let mut i: usize = 0;
        assert(target@ =~= old(target)@ + render_bytes(old(self)@.panes, 0));
        while i < n
            invariant
                i <= n,
                n == self.panes.len(),
                n == old(self)@.panes.len(),
                self.keys == old(self).keys,
                old(self)@.wf(),
                forall|k: int| 0 <= k < i ==> (#[trigger] self@.panes[k]) == old(self)@.panes[k].drawn(),
                forall|k: int| i <= k < n ==> (#[trigger] self@.panes[k]) == old(self)@.panes[k],
                target@ == old(target)@ + render_bytes(old(self)@.panes, i as int),
            decreases n - i,
        {
            let ghost before = self.panes@;
            let ghost before_view = self@.panes;
            assert(before_view[i as int] == before[i as int]@);
            let _ = self.panes[i].write(target);
            assert forall|k: int| 0 <= k < n && k != i implies self.panes@[k] == before[k] by {}
            assert(self.panes@[i as int]@ == before[i as int]@.drawn());
            i += 1;
            assert forall|k: int| 0 <= k < i implies (#[trigger] self@.panes[k]) == old(
                self,
            )@.panes[k].drawn() by {
                if k < i - 1 {
                    assert(self.panes@[k] == before[k]);
                    assert(before_view[k] == before[k]@);
                }
            }
            assert forall|k: int| i <= k < n implies (#[trigger] self@.panes[k]) == old(
                self,
            )@.panes[k] by {
                assert(self.panes@[k] == before[k]);
                assert(before_view[k] == before[k]@);
            }
            assert(target@ =~= old(target)@ + render_bytes(old(self)@.panes, i as int));
        }
        assert(self@.panes =~= old(self)@.drawn().panes);
        assert(self@.keys =~= old(self)@.keys);
        proof {
            assert forall|k: int| 0 <= k < self@.panes.len() implies (#[trigger] self@.panes[k]).wf() by {
                assert(old(self)@.panes[k].wf());
            }
        }
        let ghost main_at = old(self)@.position("main"@);
        assert(old(self)@.keys[main_at] == "main"@);
        assert(self@.keys[main_at] == "main"@);
        match self.find("main") {
            Some(at) => {
                assert(at == main_at);
                assert(self@.panes[at as int] == self.panes@[at as int]@);
                let _ = self.panes[at].take_cursor(target);
            },
            None => {
                assert(false);
            },
        }
        Ok(())
    }

    /// Pushes `data` to the pane with the name `task_id` and returns what
    /// the pane sends to the host terminal. Data for a name without a pane
    /// is dropped.
    pub fn push(&mut self, task_id: String, data: &String) -> (host: String)
        requires
            old(self)@.wf(),
        ensures
            final(self)@.wf(),
            old(self)@.has(task_id@) ==> final(self)@ == (Registry {
                panes: old(self)@.panes.update(
                    old(self)@.position(task_id@),
                    old(self)@.panes[old(self)@.position(task_id@)].push(data@),
                ),
                ..old(self)@
            }) && host@ == old(self)@.panes[old(self)@.position(task_id@)].host_output(data@),
            !old(self)@.has(task_id@) ==> final(self)@ == old(self)@ && host@ == Seq::<
                char,
            >::empty(),
    {
        match self.find(task_id.as_str()) {
            None => String::new(),
            Some(i) => {
                proof {
                    let at = old(self)@.position(task_id@);
                    assert(old(self)@.keys[at] == task_id@);
                    assert(at == i);
                }
                let ghost before = self.panes@;
                assert(self@.panes[i as int] == before[i as int]@);
                let pushed = self.panes[i].push(data.as_str());
                assert forall|k: int| 0 <= k < before.len() && k != i implies self.panes@[k]
                    == before[k] by {}
                assert(self@.panes =~= old(self)@.panes.update(
                    i as int,
                    old(self)@.panes[i as int].push(data@),
                ));
                assert(self@.keys =~= old(self)@.keys);
                proof {
                    assert forall|k: int| 0 <= k < self@.panes.len() implies (
                    #[trigger] self@.panes[k]).wf() by {
                        assert(old(self)@.panes[k].wf());
                    }
                }
                match pushed {
                    Ok(host) => host,
                    Err(_) => String::new(),
                }
            },
        }
    }
}

} // verus!
