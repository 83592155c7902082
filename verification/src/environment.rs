//! The evaluator's environment: a stack of scope frames over a global map,
//! with shared value-cells.
//!
//! Value-cells live in an arena owned by the environment; a handle is the
//! cell's index. Two lookups of one name return the same handle, so a write
//! through one handle is seen through the other — the aliasing the language
//! gives variable references.

use vstd::prelude::*;
use vstd::pervasive::VecAdditionalExecFns;
use vstd::string::StringExecFns;

use crate::text::str_eq;
use crate::value::{FunctionImpl, Value, ValueView};

verus! {

/// One binding: a name and the handle of its value-cell.
type Binding = (String, usize);

/// The shape of one scope frame: bindings in the order they were made; the
/// latest binding of a name wins.
pub type FrameView = Seq<(Seq<char>, int)>;

/// The shape of an environment: the cell arena, the global bindings, and the
/// scope frames, innermost last.
pub struct EnvView {
    pub cells: Seq<ValueView>,
    pub globals: FrameView,
    pub frames: Seq<FrameView>,
}

/// The shape of one frame's bindings.
pub open spec fn view_frame(f: Seq<Binding>) -> FrameView {
    f.map_values(|b: Binding| (b.0@, b.1 as int))
}

/// The shapes of all frames.
pub open spec fn view_frames(fs: Seq<Vec<Binding>>) -> Seq<FrameView> {
    fs.map_values(|f: Vec<Binding>| view_frame(f@))
}

/// The handle bound to a name in one frame: the latest binding wins.
pub open spec fn frame_lookup(f: FrameView, name: Seq<char>) -> Option<int>
    decreases f.len(),
{
    if f.len() == 0 {
        None
    } else if f.last().0 == name {
        Some(f.last().1)
    } else {
        frame_lookup(f.drop_last(), name)
    }
}

/// The handle bound to a name in a stack of frames, innermost frame first.
pub open spec fn frames_lookup(fs: Seq<FrameView>, name: Seq<char>) -> Option<int>
    decreases fs.len(),
{
    if fs.len() == 0 {
        None
    } else {
        match frame_lookup(fs.last(), name) {
            Some(i) => Some(i),
            None => frames_lookup(fs.drop_last(), name),
        }
    }
}

impl EnvView {
    /// A name's handle: the innermost frame that binds it, else the globals.
    pub open spec fn lookup(self, name: Seq<char>) -> Option<int> {
        match frames_lookup(self.frames, name) {
            Some(i) => Some(i),
            None => frame_lookup(self.globals, name),
        }
    }

    /// A name's handle at a precomputed scope distance: distance 0 is the
    /// innermost frame, the frame count means the globals, and anything
    /// farther out is nothing.
    pub open spec fn lookup_at(self, name: Seq<char>, distance: int) -> Option<int> {
        if distance == self.frames.len() {
            frame_lookup(self.globals, name)
        } else if 0 <= distance < self.frames.len() {
            frame_lookup(self.frames[self.frames.len() - 1 - distance], name)
        } else {
            None
        }
    }

    /// Every binding's handle points into the cell arena.
    pub open spec fn wf(self) -> bool {
        &&& forall|i: int|
            0 <= i < self.globals.len() ==> 0 <= (#[trigger] self.globals[i]).1 < self.cells.len()
        &&& forall|j: int, i: int|
            0 <= j < self.frames.len() && 0 <= i < self.frames[j].len() ==> 0 <= (
            #[trigger] self.frames[j][i]).1 < self.cells.len()
    }

    /// The environment a fresh binding of `name` to a new cell holding `v`
    /// leaves behind: the cell is appended to the arena and the binding goes
    /// to the innermost frame, or to the globals when no frame is pushed.
    pub open spec fn define(self, name: Seq<char>, v: ValueView) -> EnvView {
        let cells2 = self.cells.push(v);
        let idx = self.cells.len() as int;
        if self.frames.len() > 0 {
            EnvView {
                cells: cells2,
                globals: self.globals,
                frames: self.frames.update(
                    self.frames.len() - 1,
                    self.frames.last().push((name, idx)),
                ),
            }
        } else {
            EnvView { cells: cells2, globals: self.globals.push((name, idx)), frames: self.frames }
        }
    }
}

/// A binding handle found in a well-formed frame points into the arena.
pub proof fn lemma_frame_lookup_wf(f: FrameView, name: Seq<char>, bound: int)
    requires
        forall|i: int| 0 <= i < f.len() ==> 0 <= (#[trigger] f[i]).1 < bound,
        frame_lookup(f, name) is Some,
    ensures
        0 <= frame_lookup(f, name)->Some_0 < bound,
    decreases f.len(),
{
    if f.len() > 0 && f.last().0 != name {
        lemma_frame_lookup_wf(f.drop_last(), name, bound);
    }
}

/// A binding handle found in a well-formed environment points into the arena.
pub proof fn lemma_env_lookup_wf(env: EnvView, name: Seq<char>)
    requires
        env.wf(),
        env.lookup(name) is Some,
    ensures
        0 <= env.lookup(name)->Some_0 < env.cells.len(),
{
    lemma_frames_lookup_wf(env.frames, name, env.cells.len() as int);
    if frames_lookup(env.frames, name) is None {
        lemma_frame_lookup_wf(env.globals, name, env.cells.len() as int);
    }
}

/// A binding handle found in well-formed frames points into the arena.
pub proof fn lemma_frames_lookup_wf(fs: Seq<FrameView>, name: Seq<char>, bound: int)
    requires
        forall|j: int, i: int|
            0 <= j < fs.len() && 0 <= i < fs[j].len() ==> 0 <= (#[trigger] fs[j][i]).1 < bound,
    ensures
        frames_lookup(fs, name) is Some ==> 0 <= frames_lookup(fs, name)->Some_0 < bound,
    decreases fs.len(),
{
    if fs.len() > 0 {
        if frame_lookup(fs.last(), name) is Some {
            lemma_frame_lookup_wf(fs.last(), name, bound);
        } else {
            assert(fs.drop_last() =~= fs.subrange(0, fs.len() - 1));
            lemma_frames_lookup_wf(fs.drop_last(), name, bound);
        }
    }
}

/// A binding handle found at a distance in a well-formed environment points
/// into the arena.
pub proof fn lemma_env_lookup_at_wf(env: EnvView, name: Seq<char>, distance: int)
    requires
        env.wf(),
        env.lookup_at(name, distance) is Some,
    ensures
        0 <= env.lookup_at(name, distance)->Some_0 < env.cells.len(),
{
    if distance == env.frames.len() {
        lemma_frame_lookup_wf(env.globals, name, env.cells.len() as int);
    } else {
        lemma_frame_lookup_wf(
            env.frames[env.frames.len() - 1 - distance],
            name,
            env.cells.len() as int,
        );
    }
}

/// The environment: a cell arena, global bindings, and a stack of frames.
#[derive(Debug)]
pub struct EnvironmentImpl {
    cells: Vec<Value>,
    global_variables: Vec<Binding>,
    value_stack: Vec<Vec<Binding>>,
}

impl View for EnvironmentImpl {
    type V = EnvView;

    closed spec fn view(&self) -> EnvView {
        EnvView {
            cells: self.cells@.map_values(|v: Value| v@),
            globals: view_frame(self.global_variables@),
            frames: view_frames(self.value_stack@),
        }
    }
}

/// The handle bound to `name` in one frame vector, scanning latest first.
fn frame_get(frame: &Vec<Binding>, name: &str) -> (r: Option<usize>)
    ensures
        match r {
            Some(i) => frame_lookup(view_frame(frame@), name@) == Some(i as int),
            None => frame_lookup(view_frame(frame@), name@) is None,
        },
{
    let ghost fv = view_frame(frame@);
    proof {
        assert(fv.subrange(0, fv.len() as int) =~= fv);
    }
    let mut i: usize = frame.len();
    while i > 0
        invariant
            i <= frame@.len(),
            fv == view_frame(frame@),
            fv.len() == frame@.len(),
            frame_lookup(fv, name@) == frame_lookup(fv.subrange(0, i as int), name@),
        decreases i,
    {
        i = i - 1;
        let hit = str_eq(frame[i].0.as_str(), name);
        proof {
            let pre = fv.subrange(0, i as int + 1);
            assert(pre.last() == fv[i as int]);
            assert(fv[i as int] == (frame@[i as int].0@, frame@[i as int].1 as int));
            assert(pre.drop_last() =~= fv.subrange(0, i as int));
        }
        if hit {
            return Some(frame[i].1);
        }
    }
    proof {
        assert(fv.subrange(0, 0) =~= Seq::<(Seq<char>, int)>::empty());
    }
    None
}

impl EnvironmentImpl {
    /// A fresh environment: no cells, no globals, no frames.
    pub fn new() -> (r: Self)
        ensures
            r@.cells == Seq::<ValueView>::empty(),
            r@.globals == Seq::<(Seq<char>, int)>::empty(),
            r@.frames == Seq::<FrameView>::empty(),
            r@.wf(),
    {
        let r = EnvironmentImpl {
            cells: Vec::new(),
            global_variables: Vec::new(),
            value_stack: Vec::new(),
        };
        proof {
            assert(r@.cells =~= Seq::<ValueView>::empty());
            assert(r@.globals =~= Seq::<(Seq<char>, int)>::empty());
            assert(r@.frames =~= Seq::<FrameView>::empty());
        }
        r
    }

    /// How many scope frames are pushed.
    pub fn depth(&self) -> (r: usize)
        ensures
            r == self@.frames.len(),
    {
        self.value_stack.len()
    }

    /// Pushes a fresh, empty scope frame.
    pub fn push_stack(&mut self)
        ensures
            final(self)@.cells == old(self)@.cells,
            final(self)@.globals == old(self)@.globals,
            final(self)@.frames == old(self)@.frames.push(Seq::empty()),
            old(self)@.wf() ==> final(self)@.wf(),
    {
        self.value_stack.push(Vec::new());
        proof {
            assert(view_frame(Seq::<Binding>::empty()) =~= Seq::<(Seq<char>, int)>::empty());
            assert(self@.frames =~~= old(self)@.frames.push(Seq::empty()));
        }
    }

    /// Pops the innermost scope frame; on an empty stack nothing changes.
    pub fn pop_stack(&mut self)
        ensures
            final(self)@.cells == old(self)@.cells,
            final(self)@.globals == old(self)@.globals,
            old(self)@.frames.len() > 0 ==> final(self)@.frames == old(self)@.frames.drop_last(),
            old(self)@.frames.len() == 0 ==> final(self)@.frames == old(self)@.frames,
            old(self)@.wf() ==> final(self)@.wf(),
    {
        let popped = self.value_stack.pop();
        proof {
            if old(self)@.frames.len() > 0 {
                assert(self@.frames =~= old(self)@.frames.drop_last());
            } else {
                assert(self@.frames =~= old(self)@.frames);
            }
        }
    }

    /// Binds `name` to a fresh cell holding `value`, in the innermost frame
    /// or, with no frame pushed, in the globals. Always succeeds, shadowing
    /// any earlier binding of the name.
    pub fn define_variable(&mut self, name: &str, value: Value)
        ensures
            final(self)@ == old(self)@.define(name@, value@),
            old(self)@.wf() ==> final(self)@.wf(),
    {
        let ghost prior = self@;
        let idx = self.cells.len();
        self.cells.push(value);
        proof {
            assert(self@.cells =~= prior.cells.push(value@));
        }
        let entry = (name.to_owned(), idx);
        let top = self.value_stack.pop();
        match top {
            Some(mut frame) => {
                frame.push(entry);
                self.value_stack.push(frame);
                proof {
                    let target = prior.define(name@, value@);
                    assert(view_frame(frame@) =~= prior.frames.last().push(
                        (name@, prior.cells.len() as int),
                    ));
                    assert(self@.frames =~= target.frames);
                    assert(self@ == target);
                    if prior.wf() {
                        assert(self@.wf());
                    }
                }
            },
            None => {
                self.global_variables.push(entry);
                proof {
                    let target = prior.define(name@, value@);
                    assert(self@.globals =~= target.globals);
                    assert(self@.frames =~= target.frames);
                    assert(self@ == target);
                    if prior.wf() {
                        assert(self@.wf());
                    }
                }
            },
        }
    }

    /// Binds `name` to a fresh cell holding the given function value.
    pub fn define_function(&mut self, name: &str, function: FunctionImpl)
        ensures
            final(self)@ == old(self)@.define(name@, ValueView::Callable(function@)),
            old(self)@.wf() ==> final(self)@.wf(),
    {
        let ghost fv = function@;
        let v = Value::Callable(function);
        proof {
            assert(v@ == ValueView::Callable(fv));
        }
        self.define_variable(name, v);
    }

    /// The handle of `name`: the innermost frame that binds it wins, and the
    /// globals answer last; `None` when the name is bound nowhere.
    pub fn get_variable(&self, name: &str) -> (r: Option<usize>)
        ensures
            match r {
                Some(i) => self@.lookup(name@) == Some(i as int),
                None => self@.lookup(name@) is None,
            },
    {
        let ghost fsv = self@.frames;
        proof {
            assert(fsv.subrange(0, fsv.len() as int) =~= fsv);
        }
        let mut fi: usize = self.value_stack.len();
        while fi > 0
            invariant
                fi <= self.value_stack@.len(),
                fsv == self@.frames,
                fsv.len() == self.value_stack@.len(),
                frames_lookup(fsv, name@) == frames_lookup(fsv.subrange(0, fi as int), name@),
            decreases fi,
        {
            fi = fi - 1;
            proof {
                let pre = fsv.subrange(0, fi as int + 1);
                assert(pre.last() == fsv[fi as int]);
                assert(fsv[fi as int] == view_frame(self.value_stack@[fi as int]@));
                assert(pre.drop_last() =~= fsv.subrange(0, fi as int));
            }
            let found = frame_get(&self.value_stack[fi], name);
            if let Some(ix) = found {
                return Some(ix);
            }
        }
        proof {
            assert(fsv.subrange(0, 0) =~= Seq::<FrameView>::empty());
        }
        self.get_global_variable(name)
    }

    /// The handle of `name` among the globals alone.
    pub fn get_global_variable(&self, name: &str) -> (r: Option<usize>)
        ensures
            match r {
                Some(i) => frame_lookup(self@.globals, name@) == Some(i as int),
                None => frame_lookup(self@.globals, name@) is None,
            },
    {
        frame_get(&self.global_variables, name)
    }

    /// The handle of `name` at a precomputed scope distance: 0 is the
    /// innermost frame, the frame count means the globals, and a distance
    /// past that finds nothing.
    pub fn get_variable_at(&self, name: &str, unwind_index: usize) -> (r: Option<usize>)
        ensures
            match r {
                Some(i) => self@.lookup_at(name@, unwind_index as int) == Some(i as int),
                None => self@.lookup_at(name@, unwind_index as int) is None,
            },
    {
        let len = self.value_stack.len();
        if unwind_index == len {
            self.get_global_variable(name)
        } else if unwind_index < len {
            proof {
                assert(self@.frames[len - 1 - unwind_index as int] == view_frame(
                    self.value_stack@[len - 1 - unwind_index as int]@,
                ));
            }
            frame_get(&self.value_stack[len - 1 - unwind_index], name)
        } else {
            None
        }
    }

    /// The value in the cell behind a handle.
    pub fn read_cell(&self, cell: usize) -> (r: &Value)
        requires
            cell < self@.cells.len(),
        ensures
            r@ == self@.cells[cell as int],
    {
        &self.cells[cell]
    }

    /// Replaces the value in the cell behind a handle; every holder of the
    /// same handle sees the new value.
    pub fn write_cell(&mut self, cell: usize, value: Value)
        requires
            cell < old(self)@.cells.len(),
        ensures
            final(self)@.cells == old(self)@.cells.update(cell as int, value@),
            final(self)@.globals == old(self)@.globals,
            final(self)@.frames == old(self)@.frames,
            old(self)@.wf() ==> final(self)@.wf(),
    {
        self.cells.set(cell, value);
        proof {
            assert(self@.cells =~= old(self)@.cells.update(cell as int, value@));
            assert(self@.cells.len() == old(self)@.cells.len());
            assert(self@.globals == old(self)@.globals);
            assert(self@.frames == old(self)@.frames);
            if old(self)@.wf() {
                assert forall|i: int| 0 <= i < self@.globals.len() implies 0 <= (
                #[trigger] self@.globals[i]).1 < self@.cells.len() by {
                    assert(0 <= old(self)@.globals[i].1 < old(self)@.cells.len());
                }
                assert forall|j: int, i: int|
                    0 <= j < self@.frames.len() && 0 <= i < self@.frames[j].len() implies 0 <= (
                #[trigger] self@.frames[j][i]).1 < self@.cells.len() by {
                    assert(0 <= old(self)@.frames[j][i].1 < old(self)@.cells.len());
                }
                assert(self@.wf());
            }
        }
    }
}

} // verus!

verus! {

/// Value-cell aliasing: two lookups of one name in a well-formed environment
/// return the same handle, and a write through that handle is seen by a read
/// through the other — the cell is shared storage, not a copy.
pub proof fn lemma_value_cell_aliasing(
    env: EnvView,
    name: Seq<char>,
    h1: int,
    h2: int,
    v: ValueView,
)
    requires
        env.wf(),
        env.lookup(name) == Some(h1),
        env.lookup(name) == Some(h2),
    ensures
        h1 == h2,
        ({
            let env2 = EnvView {
                cells: env.cells.update(h2, v),
                globals: env.globals,
                frames: env.frames,
            };
            env2.lookup(name) == Some(h1) && env2.cells[h1] == v
        }),
{
    lemma_env_lookup_wf(env, name);
}

} // verus!
