//! The in-memory task store: an ordered sequence of tasks with
//! id-based lookup and mutation.
//!
//! Lookup is a linear scan and always acts on the first task whose id
//! matches; ids need not be unique, so first-match is the tie-break.

use vstd::prelude::*;
use vstd::string::StrSliceExecFns;

use crate::codec::{chars_to_string, emit_u32, spec_u32};
use crate::task::{views_of, Task, TaskView};

verus! {

/// The to-do application state: the ordered task list of one run.
pub struct TODOApp {
    pub tasks: Vec<Task>,
}

/// Whether some task in `s` carries the id `id`.
pub open spec fn has_id(s: Seq<TaskView>, id: u32) -> bool {
    exists|i: int| 0 <= i < s.len() && s[i].id == id
}

/// Whether `i` is the index of the first task in `s` whose id is `id`.
pub open spec fn is_first_idx(s: Seq<TaskView>, id: u32, i: int) -> bool {
    &&& 0 <= i < s.len()
    &&& s[i].id == id
    &&& forall|j: int| 0 <= j < i ==> s[j].id != id
}

/// The listing line for one task: its id, its name, and a completion
/// glyph — a checked box for a completed task, a crossed box for an
/// open one.
pub open spec fn spec_line(t: TaskView) -> Seq<char> {
    seq!['T', 'a', 's', 'k', ' ', 'I', 'D', ':', ' '] + spec_u32(t.id) + seq![
        ',',
        ' ',
        'N',
        'a',
        'm',
        'e',
        ':',
        ' ',
    ] + t.name + seq![',', ' ', 'C', 'o', 'm', 'p', 'l', 'e', 't', 'e', 'd', ':', ' '] + seq![
        if t.completed {
            '\u{2611}'
        } else {
            '\u{2612}'
        },
    ]
}

/// Appends the opening of a listing line: `Task ID: `.
fn push_line_head(out: &mut Vec<char>)
    ensures
        final(out)@ == old(out)@ + seq!['T', 'a', 's', 'k', ' ', 'I', 'D', ':', ' '],
{
    let ghost before = out@;
    out.push('T');
    out.push('a');
    out.push('s');
    out.push('k');
    out.push(' ');
    out.push('I');
    out.push('D');
    out.push(':');
    out.push(' ');
    proof {
        assert(out@ =~= before + seq!['T', 'a', 's', 'k', ' ', 'I', 'D', ':', ' ']);
    }
}

/// Appends the name separator of a listing line: `, Name: `.
fn push_name_sep(out: &mut Vec<char>)
    ensures
        final(out)@ == old(out)@ + seq![',', ' ', 'N', 'a', 'm', 'e', ':', ' '],
{
    let ghost before = out@;
    out.push(',');
    out.push(' ');
    out.push('N');
    out.push('a');
    out.push('m');
    out.push('e');
    out.push(':');
    out.push(' ');
    proof {
        assert(out@ =~= before + seq![',', ' ', 'N', 'a', 'm', 'e', ':', ' ']);
    }
}

/// Appends the completion separator of a listing line: `, Completed: `.
fn push_comp_sep(out: &mut Vec<char>)
    ensures
        final(out)@ == old(out)@ + seq![
            ',',
            ' ',
            'C',
            'o',
            'm',
            'p',
            'l',
            'e',
            't',
            'e',
            'd',
            ':',
            ' ',
        ],
{
    let ghost before = out@;
    out.push(',');
    out.push(' ');
    out.push('C');
    out.push('o');
    out.push('m');
    out.push('p');
    out.push('l');
    out.push('e');
    out.push('t');
    out.push('e');
    out.push('d');
    out.push(':');
    out.push(' ');
    proof {
        assert(out@ =~= before + seq![
            ',',
            ' ',
            'C',
            'o',
            'm',
            'p',
            'l',
            'e',
            't',
            'e',
            'd',
            ':',
            ' ',
        ]);
    }
}

/// Appends the characters of `s`.
fn push_chars(out: &mut Vec<char>, s: &str)
    ensures
        final(out)@ == old(out)@ + s@,
{
    let ghost before = out@;
    let n = s.unicode_len();
    let mut k: usize = 0;
    while k < n
        invariant
            n == s@.len(),
            0 <= k <= n,
            out@ == before + s@.take(k as int),
        decreases n - k,
    {
        out.push(s.get_char(k));
        proof {
            assert(out@ =~= before + s@.take(k + 1));
        }
        k = k + 1;
    }
    proof {
        assert(s@.take(n as int) =~= s@);
    }
}

/// The listing line for one task.
#[verifier::rlimit(50)]
fn render_line(t: &Task) -> (r: String)
    ensures
        r@ == spec_line(t@),
{
    let mut out: Vec<char> = Vec::new();
    push_line_head(&mut out);
    emit_u32(&mut out, t.id);
    push_name_sep(&mut out);
    push_chars(&mut out, t.name.as_str());
    push_comp_sep(&mut out);
    if t.completed {
        out.push('\u{2611}');
    } else {
        out.push('\u{2612}');
    }
    proof {
        assert(out@ =~= spec_line(t@));
    }
    chars_to_string(out)
}

impl View for TODOApp {
    type V = Seq<TaskView>;

    open spec fn view(&self) -> Seq<TaskView> {
        views_of(self.tasks@)
    }
}

impl TODOApp {
    /// An empty store, as each run starts before loading the file.
    pub fn empty() -> (r: TODOApp)
        ensures
            r@ == Seq::<TaskView>::empty(),
    {
        let r = TODOApp { tasks: Vec::new() };
        proof {
            assert(r@ =~= Seq::<TaskView>::empty());
        }
        r
    }

    /// Whether the store holds no task at all.
    pub fn is_empty(&self) -> (r: bool)
        ensures
            r == (self@.len() == 0),
    {
        self.tasks.len() == 0
    }

    /// The id a task created now would receive: the current task count
    /// plus one. After deletions this may collide with a surviving id;
    /// that is the store's id-assignment rule, not a defect of lookup.
    pub fn next_id(&self) -> (r: u32)
        requires
            self@.len() < u32::MAX,
        ensures
            r == self@.len() + 1,
    {
        self.tasks.len() as u32 + 1
    }

    /// Appends `task` at the end of the sequence. No uniqueness check
    /// is made on its id.
    pub fn new(&mut self, task: Task)
        ensures
            final(self)@ == old(self)@.push(task@),
    {
        let ghost before = self@;
        self.tasks.push(task);
        proof {
            assert(self@ =~= before.push(task@));
        }
    }

    /// The index of the first task whose id is `id`, if any.
    pub fn find_by_id(&self, id: u32) -> (r: Option<usize>)
        ensures
            match r {
                Some(i) => is_first_idx(self@, id, i as int),
                None => !has_id(self@, id),
            },
    {
        let mut i: usize = 0;
        while i < self.tasks.len()
            invariant
                0 <= i <= self@.len(),
                forall|j: int| 0 <= j < i ==> self@[j].id != id,
            decreases self@.len() - i,
        {
            if self.tasks[i].id == id {
                return Some(i);
            }
            i = i + 1;
        }
        None
    }

    /// Removes the first task whose id is `id`. Returns whether one was
    /// found; when none is, the store is left unchanged.
    pub fn delete(&mut self, id: u32) -> (found: bool)
        ensures
            found == has_id(old(self)@, id),
            !found ==> final(self)@ == old(self)@,
            found ==> exists|i: int|
                is_first_idx(old(self)@, id, i) && final(self)@ == old(self)@.remove(i),
    {
        let ghost before = self@;
        match self.find_by_id(id) {
            Some(i) => {
                self.tasks.remove(i);
                proof {
                    assert(self@ =~= before.remove(i as int));
                }
                true
            },
            None => false,
        }
    }

    /// Sets the completion flag of the first task whose id is `id` to
    /// `done`. Returns whether one was found; when none is, the store
    /// is left unchanged.
    pub fn set_completed(&mut self, id: u32, done: bool) -> (found: bool)
        ensures
            found == has_id(old(self)@, id),
            !found ==> final(self)@ == old(self)@,
            found ==> exists|i: int|
                is_first_idx(old(self)@, id, i) && final(self)@ == old(self)@.update(
                    i,
                    TaskView { completed: done, ..old(self)@[i] },
                ),
    {
        let ghost before = self@;
        match self.find_by_id(id) {
            Some(i) => {
                let updated = Task {
                    id: self.tasks[i].id,
                    name: self.tasks[i].name.clone(),
                    completed: done,
                };
                let _ = self.tasks.remove(i);
                self.tasks.insert(i, updated);
                proof {
                    assert(self@ =~= before.update(
                        i as int,
                        TaskView { completed: done, ..before[i as int] },
                    ));
                }
                true
            },
            None => false,
        }
    }

    /// Marks the first task whose id is `id` as completed; a no-op on
    /// an absent id.
    pub fn complete(&mut self, id: u32) -> (found: bool)
        ensures
            found == has_id(old(self)@, id),
            !found ==> final(self)@ == old(self)@,
            found ==> exists|i: int|
                is_first_idx(old(self)@, id, i) && final(self)@ == old(self)@.update(
                    i,
                    TaskView { completed: true, ..old(self)@[i] },
                ),
    {
        self.set_completed(id, true)
    }

    /// The listing: one line per task, in sequence order. Reading the
    /// listing never changes the store.
    pub fn list(&self) -> (r: Vec<String>)
        ensures
            r@.len() == self@.len(),
            forall|i: int| 0 <= i < r@.len() ==> r@[i]@ == spec_line(self@[i]),
    {
        let mut r: Vec<String> = Vec::new();
        let mut k: usize = 0;
        while k < self.tasks.len()
            invariant
                0 <= k <= self@.len(),
                self@.len() == self.tasks@.len(),
                r@.len() == k,
                forall|i: int| 0 <= i < k ==> r@[i]@ == spec_line(self@[i]),
            decreases self@.len() - k,
        {
            r.push(render_line(&self.tasks[k]));
            k = k + 1;
        }
        r
    }

    /// Marks the first task whose id is `id` as not completed; a no-op
    /// on an absent id.
    pub fn uncomplete(&mut self, id: u32) -> (found: bool)
        ensures
            found == has_id(old(self)@, id),
            !found ==> final(self)@ == old(self)@,
            found ==> exists|i: int|
                is_first_idx(old(self)@, id, i) && final(self)@ == old(self)@.update(
                    i,
                    TaskView { completed: false, ..old(self)@[i] },
                ),
    {
        self.set_completed(id, false)
    }
}

} // verus!
