//! The environment: every frame of a session, held in one place.
//!
//! A frame maps names to values and may have a parent. Frames are named by
//! their index; a parent always has a smaller index than its children, so a
//! chain of parents ends. Frame 0 is the root. Frames are dropped from the end
//! only, when the evaluation that made them is over and its result refers to
//! none of them.

use crate::builtin::{builtin_name, builtin_table, get_builtins, table_bindings};
use crate::interpreter::value::{Value, ValueView};
use std::rc::Rc;
use vstd::hash_map::StringHashMap;
use vstd::prelude::*;
use vstd::string::*;

verus! {

/// The view of a frame.
pub struct FrameView {
    pub parent: Option<nat>,
    pub bindings: Map<Seq<char>, ValueView>,
}

/// A frame without bindings.
pub open spec fn empty_frame(parent: Option<nat>) -> FrameView {
    FrameView { parent, bindings: Map::empty() }
}

/// Every parent has a smaller index than its child, and there is a root.
pub open spec fn well_formed(env: Seq<FrameView>) -> bool {
    &&& env.len() >= 1
    &&& forall|i: int|
        0 <= i < env.len() ==> ((#[trigger] env[i]).parent matches Some(p) ==> p < i)
}

/// The value that `name` has in `frame`: that of the nearest frame that binds
/// it, from `frame` along the parents to the root.
pub open spec fn resolve_spec(env: Seq<FrameView>, frame: int, name: Seq<char>) -> Option<
    ValueView,
>
    decreases frame,
{
    if frame < 0 || frame >= env.len() {
        None
    } else if env[frame].bindings.contains_key(name) {
        Some(env[frame].bindings[name])
    } else {
        match env[frame].parent {
            Some(p) => if p < frame {
                resolve_spec(env, p as int, name)
            } else {
                None
            },
            None => None,
        }
    }
}

/// The environment after `name` is bound to `value` in `frame`. No other frame
/// changes.
pub open spec fn define_spec(env: Seq<FrameView>, frame: int, name: Seq<char>, value: ValueView) -> Seq<
    FrameView,
> {
    env.update(
        frame,
        FrameView { parent: env[frame].parent, bindings: env[frame].bindings.insert(name, value) },
    )
}

/// The environment after a new, empty frame is made under `parent`. The new
/// frame's index is the number of frames before.
pub open spec fn child_spec(env: Seq<FrameView>, parent: int) -> Seq<FrameView> {
    env.push(empty_frame(Some(parent as nat)))
}

/// `after` holds every frame of `before`, unchanged.
pub open spec fn extends(before: Seq<FrameView>, after: Seq<FrameView>) -> bool {
    &&& before.len() <= after.len()
    &&& forall|i: int| 0 <= i < before.len() ==> #[trigger] after[i] == before[i]
}

struct Frame {
    parent: Option<usize>,
    values: StringHashMap<Rc<Value>>,
}

impl Frame {
    spec fn view(&self) -> FrameView {
        FrameView {
            parent: match self.parent {
                Some(p) => Some(p as nat),
                None => None,
            },
            bindings: self.values@.map_values(|v: Rc<Value>| v@),
        }
    }
}

/// The frames of a session.
pub struct Env {
    frames: Vec<Frame>,
}

impl View for Env {
    type V = Seq<FrameView>;

    closed spec fn view(&self) -> Seq<FrameView> {
        Seq::new(self.frames.len() as nat, |i: int| self.frames[i].view())
    }
}

impl Env {
    /// The invariant of the environment.
    pub open spec fn wf(&self) -> bool {
        well_formed(self@)
    }

    /// An environment with a root frame that binds nothing.
    pub fn new() -> (env: Env)
        ensures
            env.wf(),
            env@ == seq![empty_frame(None)],
    {
        let mut frames: Vec<Frame> = Vec::new();
        let root = Frame { parent: None, values: StringHashMap::new() };
        assert(root.view().bindings =~= Map::empty());
        frames.push(root);
        let env = Env { frames };
        assert(env@ =~= seq![empty_frame(None)]);
        env
    }

    /// The number of frames.
    pub fn len(&self) -> (n: usize)
        ensures
            n == self@.len(),
    {
        self.frames.len()
    }

    /// Makes a new, empty frame under `parent` and returns its index.
    pub fn with_parent(&mut self, parent: usize) -> (frame: usize)
        requires
            old(self).wf(),
            parent < old(self)@.len(),
        ensures
            final(self).wf(),
            frame == old(self)@.len(),
            final(self)@ == child_spec(old(self)@, parent as int),
    {
        let frame = self.frames.len();
        let child = Frame { parent: Some(parent), values: StringHashMap::new() };
        assert(child.view().bindings =~= Map::empty());
        self.frames.push(child);
        assert(self@ =~= child_spec(old(self)@, parent as int));
        frame
    }

    /// Drops the frames from index `len` on. The root stays. Only the evaluator
    /// does this, for frames to which nothing refers any more.
    pub(crate) fn truncate(&mut self, len: usize)
        requires
            old(self).wf(),
            1 <= len <= old(self)@.len(),
        ensures
            final(self).wf(),
            final(self)@ == old(self)@.take(len as int),
    {
        self.frames.truncate(len);
        assert(self@ =~= old(self)@.take(len as int));
    }

    /// The value that `identifier` has in `frame`.
    pub fn resolve(&self, frame: usize, identifier: &str) -> (r: Option<Rc<Value>>)
        requires
            self.wf(),
            frame < self@.len(),
        ensures
            match r {
                Some(v) => resolve_spec(self@, frame as int, identifier@) == Some(v@),
                None => resolve_spec(self@, frame as int, identifier@) is None,
            },
    {
        let mut cur: usize = frame;
        loop
            invariant
                self.wf(),
                cur < self@.len(),
                resolve_spec(self@, frame as int, identifier@) == resolve_spec(
                    self@,
                    cur as int,
                    identifier@,
                ),
            decreases cur,
        {
            let found = self.frames[cur].values.get(identifier);
            match found {
                Some(v) => {
                    return Some(v.clone());
                },
                None => {
                    assert(!self@[cur as int].bindings.contains_key(identifier@));
                    match self.frames[cur].parent {
                        Some(p) => {
                            assert(self@[cur as int].parent == Some(p as nat));
                            cur = p;
                        },
                        None => {
                            assert(self@[cur as int].parent is None);
                            return None;
                        },
                    }
                },
            }
        }
    }

    /// Binds `identifier` to `value` in `frame`, over what it was bound to
    /// there before.
    pub fn insert(&mut self, frame: usize, identifier: String, value: Rc<Value>)
        requires
            old(self).wf(),
            frame < old(self)@.len(),
        ensures
            final(self).wf(),
            final(self)@ == define_spec(old(self)@, frame as int, identifier@, value@),
    {
        let ghost before = self.frames@;
        self.frames[frame].values.insert(identifier, value);
        proof {
            assert(self.frames@[frame as int].view().bindings =~= before[frame as int].view().bindings.insert(
                identifier@,
                value@,
            ));
            assert(self@ =~= define_spec(old(self)@, frame as int, identifier@, value@));
        }
    }

    /// An environment whose root frame binds every builtin procedure to its
    /// name, and nothing else.
    pub fn get_initialized_env() -> (env: Env)
        ensures
            env.wf(),
            env@ == seq![FrameView { parent: None, bindings: table_bindings(17) }],
    {
        let mut env = Env::new();
        let table = get_builtins();
        let mut i: usize = 0;
        while i < table.len()
            invariant
                i <= table.len(),
                table.len() == 17,
                forall|j: int|
                    0 <= j < 17 ==> (#[trigger] table[j]).1 == builtin_table()[j]
                        && table[j].0@ == builtin_name(table[j].1),
                env.wf(),
                env@ == seq![FrameView { parent: None, bindings: table_bindings(i as int) }],
            decreases table.len() - i,
        {
            let (name, builtin) = table[i];
            env.insert(0, String::from_str(name), Rc::new(Value::BUILTIN(builtin)));
            i = i + 1;
            assert(env@ =~= seq![FrameView { parent: None, bindings: table_bindings(i as int) }]);
        }
        env
    }
}

} // verus!
