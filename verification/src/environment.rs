//! The environment: a tree of scope frames in which many frames may share
//! one enclosing frame.
//!
//! Frames live in one table and are named by their place in it. A frame's
//! enclosing frame always stands before it, so the tree has no cycles.
//! Frames are taken off the end of the table again when their scope is
//! left, unless a function has captured them.

use crate::ast::{EnvHandle, ExprB, Identifier, IdentifierView, Value};
use crate::err::EnvErr;
use crate::text::{decimal_digits, push_decimal};
use vstd::prelude::*;

verus! {

/// One scope: its bindings in the order in which they were made, the
/// frame around it, and its distance from the root.
#[derive(Debug)]
pub struct Frame {
    pub names: Vec<String>,
    pub values: Vec<ExprB>,
    pub enclosing: Option<EnvHandle>,
    pub depth: usize,
    pub captured: bool,
}

/// The mathematical value of a [`Frame`].
pub struct FrameView {
    pub names: Seq<Seq<char>>,
    pub values: Seq<Value>,
    pub enclosing: Option<EnvHandle>,
    pub depth: usize,
    pub captured: bool,
}

impl View for Frame {
    type V = FrameView;

    open spec fn view(&self) -> FrameView {
        FrameView {
            names: Seq::new(self.names.len() as nat, |i: int| self.names[i]@),
            values: Seq::new(self.values.len() as nat, |i: int| self.values[i]@),
            enclosing: self.enclosing,
            depth: self.depth,
            captured: self.captured,
        }
    }
}

/// The table of frames.
#[derive(Debug)]
pub struct Env {
    pub frames: Vec<Frame>,
}

/// The mathematical value of an [`Env`]: its frames, in order.
pub type EnvView = Seq<FrameView>;

impl View for Env {
    type V = Seq<FrameView>;

    open spec fn view(&self) -> Seq<FrameView> {
        Seq::new(self.frames.len() as nat, |i: int| self.frames[i]@)
    }
}

/// The first place at or after `from` where `names` holds `name`; the
/// length of `names` if there is none.
pub open spec fn slot(names: Seq<Seq<char>>, name: Seq<char>, from: nat) -> nat
    decreases names.len() - from,
{
    if from >= names.len() {
        names.len()
    } else if names[from as int] == name {
        from
    } else {
        slot(names, name, from + 1)
    }
}

impl FrameView {
    /// A frame without bindings inside the frame `parent`.
    pub open spec fn child_of(parent: EnvHandle, depth: usize) -> FrameView {
        FrameView {
            names: Seq::empty(),
            values: Seq::empty(),
            enclosing: Some(parent),
            depth,
            captured: false,
        }
    }

    /// A frame without bindings and without an enclosing frame.
    pub open spec fn root() -> FrameView {
        FrameView {
            names: Seq::empty(),
            values: Seq::empty(),
            enclosing: None,
            depth: 0,
            captured: false,
        }
    }

    /// Whether the frame binds `name`.
    pub open spec fn has(self, name: Seq<char>) -> bool {
        slot(self.names, name, 0) < self.names.len()
    }

    /// What the frame binds `name` to.
    pub open spec fn lookup(self, name: Seq<char>) -> Option<Value> {
        if self.has(name) {
            Some(self.values[slot(self.names, name, 0) as int])
        } else {
            None
        }
    }

    /// The frame with `name` bound to `v`, in place of an earlier binding
    /// of `name` if there is one.
    pub open spec fn put(self, name: Seq<char>, v: Value) -> FrameView {
        if self.has(name) {
            FrameView { values: self.values.update(slot(self.names, name, 0) as int, v), ..self }
        } else {
            FrameView { names: self.names.push(name), values: self.values.push(v), ..self }
        }
    }

    /// The frame marked as captured by a function.
    pub open spec fn held(self) -> FrameView {
        FrameView { captured: true, ..self }
    }
}

impl Env {
    /// Every frame binds as many values as names, the enclosing frame of
    /// a frame stands before it and is one less deep, and a frame without
    /// an enclosing frame has depth 0.
    pub open spec fn well_formed(env: EnvView) -> bool {
        forall|i: int|
            0 <= i < env.len() ==> {
                &&& (#[trigger] env[i]).names.len() == env[i].values.len()
                &&& env[i].depth <= i
                &&& match env[i].enclosing {
                    Some(p) => p < i && env[i].depth == env[p as int].depth + 1,
                    None => env[i].depth == 0,
                }
            }
    }

    /// The table is well formed.
    pub open spec fn wf(&self) -> bool {
        Self::well_formed(self@)
    }

    /// The table with a new, empty frame inside the frame `parent`.
    pub open spec fn narrowed(env: EnvView, parent: EnvHandle) -> EnvView {
        env.push(FrameView::child_of(parent, (env[parent as int].depth + 1) as usize))
    }

    /// The frame reached from `at` by walking `steps` enclosing frames.
    pub open spec fn ancestor(env: EnvView, at: EnvHandle, steps: nat) -> Option<EnvHandle>
        decreases steps,
    {
        if at >= env.len() {
            None
        } else if steps == 0 {
            Some(at)
        } else {
            match env[at as int].enclosing {
                Some(p) => Self::ancestor(env, p, (steps - 1) as nat),
                None => None,
            }
        }
    }

    /// How many enclosing frames to walk from `at` to the nearest frame
    /// that binds `name`.
    pub open spec fn resolve(env: EnvView, at: EnvHandle, name: Seq<char>) -> Option<usize>
        decreases at,
    {
        if at >= env.len() {
            None
        } else if env[at as int].has(name) {
            Some(0usize)
        } else {
            match env[at as int].enclosing {
                Some(p) if p < at => match Self::resolve(env, p, name) {
                    Some(k) => Some((k + 1) as usize),
                    None => None,
                },
                _ => None,
            }
        }
    }

    /// What an identifier stands for, seen from the frame `at`: the
    /// binding of its name in the frame that its offset leads to.
    pub open spec fn value_of(env: EnvView, at: EnvHandle, id: IdentifierView) -> Option<Value> {
        match id.offset {
            None => None,
            Some(k) => match Self::ancestor(env, at, k as nat) {
                Some(f) => env[f as int].lookup(id.name),
                None => None,
            },
        }
    }

    /// The nearest frame, from `at` outward, that binds `name`.
    pub open spec fn holder(env: EnvView, at: EnvHandle, name: Seq<char>) -> Option<EnvHandle> {
        match Self::resolve(env, at, name) {
            Some(k) => Self::ancestor(env, at, k as nat),
            None => None,
        }
    }

    /// The table after `name` was bound to `v` in the frame `at`.
    pub open spec fn inserted(env: EnvView, at: EnvHandle, name: Seq<char>, v: Value) -> EnvView {
        env.update(at as int, env[at as int].put(name, v))
    }

    /// The table after `name` was given the value `v` in the nearest
    /// frame that binds it; the table as it is where none does.
    pub open spec fn assigned(env: EnvView, at: EnvHandle, name: Seq<char>, v: Value) -> EnvView {
        match Self::holder(env, at, name) {
            Some(f) => Self::inserted(env, f, name, v),
            None => env,
        }
    }

    /// The table without the frames at its end, from `mark` on, that no
    /// function has captured: it is cut back to `mark`, or to just
    /// behind the last captured frame.
    pub open spec fn released(env: EnvView, mark: nat) -> EnvView
        decreases env.len(),
    {
        if env.len() > mark && !env.last().captured {
            Self::released(env.drop_last(), mark)
        } else {
            env
        }
    }

    /// The table with the frame `at` marked as captured.
    pub open spec fn captured(env: EnvView, at: EnvHandle) -> EnvView {
        env.update(at as int, env[at as int].held())
    }

    /// Every frame of `before` is still there in `after`, inside the
    /// same frame and as deep as it was, and still captured if it was.
    pub open spec fn keeps(before: EnvView, after: EnvView) -> bool {
        &&& before.len() <= after.len()
        &&& forall|j: int|
            #![trigger after[j]]
            #![trigger before[j]]
            0 <= j < before.len() ==> {
                &&& after[j].enclosing == before[j].enclosing
                &&& after[j].depth == before[j].depth
                &&& (before[j].captured ==> after[j].captured)
            }
    }

    /// `after` keeps the frames of `before`, and holds further frames
    /// only where a function has captured the last of them: no frame
    /// stays behind unless a function holds on to it, or to a frame
    /// made after it.
    pub open spec fn extends(before: EnvView, after: EnvView) -> bool {
        &&& Self::keeps(before, after)
        &&& (after.len() > before.len() ==> after.last().captured)
    }

    /// Every frame of `before` binds in `after` the names that it bound,
    /// and no others.
    pub open spec fn keeps_names(before: EnvView, after: EnvView) -> bool {
        &&& before.len() <= after.len()
        &&& forall|j: int|
            #![trigger after[j]]
            #![trigger before[j]]
            0 <= j < before.len() ==> after[j].names == before[j].names
    }

    /// Every frame of `before` but the frame `at` binds in `after` the
    /// names that it bound, and no others.
    pub open spec fn keeps_names_but(before: EnvView, after: EnvView, at: EnvHandle) -> bool {
        &&& before.len() <= after.len()
        &&& forall|j: int|
            #![trigger after[j]]
            #![trigger before[j]]
            0 <= j < before.len() && j != at ==> after[j].names == before[j].names
    }

    /// A table with a root frame only.
    pub open spec fn global() -> EnvView {
        seq![FrameView::root()]
    }

    /// A table with a root frame and one frame inside it.
    pub open spec fn standard() -> EnvView {
        Self::narrowed(Self::global(), 0)
    }

    /// A new table that holds a root frame, and that frame's handle.
    pub fn fresh_global_handle() -> (r: (Env, EnvHandle))
        ensures
            r.0@ == Self::global(),
            r.1 == 0,
            r.0.wf(),
    {
        let mut frames: Vec<Frame> = Vec::new();
        let root = Frame {
            names: Vec::new(),
            values: Vec::new(),
            enclosing: None,
            depth: 0,
            captured: false,
        };
        assert(root@ =~= FrameView::root()) by {
            assert(root@.names =~= Seq::empty());
            assert(root@.values =~= Seq::empty());
        }
        frames.push(root);
        let env = Env { frames };
        assert(env@ =~= Self::global());
        (env, 0)
    }

    /// A new table that holds a root frame and, inside it, the frame
    /// that programs start in; the handle is that of the inner frame.
    pub fn fresh_std_env() -> (r: (Env, EnvHandle))
        ensures
            r.0@ == Self::standard(),
            r.1 == 1,
            r.0.wf(),
    {
        let (mut env, root) = Self::fresh_global_handle();
        let inner = env.narrow(root);
        (env, inner)
    }

    /// Adds an empty frame inside the frame `handle`.
    pub fn narrow(&mut self, handle: EnvHandle) -> (r: EnvHandle)
        requires
            old(self).wf(),
            handle < old(self)@.len(),
        ensures
            final(self)@ == Self::narrowed(old(self)@, handle),
            r == old(self)@.len(),
            final(self).wf(),
            Self::keeps(old(self)@, final(self)@),
            Self::keeps_names(old(self)@, final(self)@),
    {
        let depth = self.frames[handle].depth;
        assert(self@[handle as int].depth <= handle);
        let child = Frame {
            names: Vec::new(),
            values: Vec::new(),
            enclosing: Some(handle),
            depth: depth + 1,
            captured: false,
        };
        assert(child@ =~= FrameView::child_of(handle, (depth + 1) as usize)) by {
            assert(child@.names =~= Seq::empty());
            assert(child@.values =~= Seq::empty());
        }
        let r = self.frames.len();
        self.frames.push(child);
        assert(self@ =~= Self::narrowed(old(self)@, handle));
        r
    }

    /// The frame around the frame `at`.
    pub fn enclosing(&self, at: EnvHandle) -> (r: Option<EnvHandle>)
        requires
            at < self@.len(),
        ensures
            r == self@[at as int].enclosing,
    {
        self.frames[at].enclosing
    }

    /// The distance of the frame `at` from the root.
    pub fn depth(&self, at: EnvHandle) -> (r: usize)
        requires
            at < self@.len(),
        ensures
            r == self@[at as int].depth,
    {
        self.frames[at].depth
    }

    /// How many frames the table holds.
    pub fn size(&self) -> (r: usize)
        ensures
            r == self@.len(),
    {
        self.frames.len()
    }

    /// Binds `id` to `v` in the frame `at`, whether or not an enclosing
    /// frame binds it too, and hands back what the frame bound it to
    /// before.
    pub fn insert(&mut self, at: EnvHandle, id: &String, v: ExprB) -> (r: Option<ExprB>)
        requires
            old(self).wf(),
            at < old(self)@.len(),
        ensures
            final(self)@ == Self::inserted(old(self)@, at, id@, v@),
            final(self).wf(),
            Self::extends(old(self)@, final(self)@),
            Self::keeps_names_but(old(self)@, final(self)@, at),
            old(self)@[at as int].has(id@) ==> Self::keeps_names(old(self)@, final(self)@),
            r is Some == old(self)@[at as int].has(id@),
            r is Some ==> Some(r->0@) == old(self)@[at as int].lookup(id@),
    {
        let i = self.frames[at].find(id);
        let ghost before = self@;
        if i < self.frames[at].names.len() {
            let mut held = v;
            core::mem::swap(&mut self.frames[at].values[i], &mut held);
            assert(self.frames[at as int]@ =~= before[at as int].put(id@, v@)) by {
                assert(self.frames[at as int]@.values =~= before[at as int].values.update(
                    i as int,
                    v@,
                ));
                assert(self.frames[at as int]@.names =~= before[at as int].names);
            }
            assert(self@ =~= Self::inserted(before, at, id@, v@));
            Some(held)
        } else {
            self.frames[at].names.push(id.clone());
            self.frames[at].values.push(v);
            assert(self.frames[at as int]@ =~= before[at as int].put(id@, v@)) by {
                assert(self.frames[at as int]@.values =~= before[at as int].values.push(v@));
                assert(self.frames[at as int]@.names =~= before[at as int].names.push(id@));
            }
            assert(self@ =~= Self::inserted(before, at, id@, v@));
            None
        }
    }

    /// The nearest frame, from `at` outward, that binds `id`.
    pub fn holder_of(&self, at: EnvHandle, id: &String) -> (r: Option<EnvHandle>)
        requires
            self.wf(),
            at < self@.len(),
        ensures
            r == Self::holder(self@, at, id@),
            r is Some ==> r->0 < self@.len() && self@[r->0 as int].has(id@),
        decreases at,
    {
        let i = self.frames[at].find(id);
        if i < self.frames[at].names.len() {
            Some(at)
        } else {
            match self.frames[at].enclosing {
                Some(p) => {
                    let r = self.holder_of(p, id);
                    proof {
                        lemma_resolve_bound(self@, p, id@);
                    }
                    r
                },
                None => None,
            }
        }
    }

    /// Gives `id` the value `v` in the nearest frame, from `at` outward,
    /// that binds it, and hands back the value it had. Fails, and changes
    /// nothing, where no frame binds it.
    pub fn assign(&mut self, at: EnvHandle, id: &String, v: ExprB) -> (r: Result<ExprB, EnvErr>)
        requires
            old(self).wf(),
            at < old(self)@.len(),
        ensures
            final(self).wf(),
            final(self)@ == Self::assigned(old(self)@, at, id@, v@),
            Self::extends(old(self)@, final(self)@),
            Self::keeps_names(old(self)@, final(self)@),
            r is Ok == (Self::holder(old(self)@, at, id@) is Some),
            r is Ok ==> Some(r->Ok_0@) == old(self)@[Self::holder(
                old(self)@,
                at,
                id@,
            )->0 as int].lookup(id@),
            r is Err ==> r->Err_0 == EnvErr::MissingAsignee,
    {
        match self.holder_of(at, id) {
            Some(f) => match self.insert(f, id, v) {
                Some(before) => Ok(before),
                None => Err(EnvErr::MissingAsignee),
            },
            None => Err(EnvErr::MissingAsignee),
        }
    }

    /// The frame reached from `at` by walking `steps` enclosing frames.
    pub fn walk(&self, at: EnvHandle, steps: usize) -> (r: Option<EnvHandle>)
        requires
            self.wf(),
        ensures
            r == Self::ancestor(self@, at, steps as nat),
            r is Some ==> r->0 < self@.len(),
        decreases steps,
    {
        if at >= self.frames.len() {
            None
        } else if steps == 0 {
            Some(at)
        } else {
            match self.frames[at].enclosing {
                Some(p) => self.walk(p, steps - 1),
                None => None,
            }
        }
    }

    /// A copy of what the identifier stands for, seen from the frame
    /// `at`: the binding of its name in the frame that its offset leads
    /// to. `None` for an identifier without an offset, for an offset
    /// that leads out of the tree, and for a frame that does not bind
    /// the name.
    pub fn get(&self, at: EnvHandle, id: &Identifier) -> (r: Option<ExprB>)
        requires
            self.wf(),
        ensures
            r is Some == (Self::value_of(self@, at, id@) is Some),
            r is Some ==> Some(r->0@) == Self::value_of(self@, at, id@),
    {
        match id.offset {
            None => None,
            Some(k) => match self.walk(at, k) {
                Some(f) => {
                    let i = self.frames[f].find(&id.name);
                    if i < self.frames[f].names.len() {
                        Some(self.frames[f].values[i].duplicate())
                    } else {
                        None
                    }
                },
                None => None,
            },
        }
    }

    /// How many enclosing frames to walk from `at` to the nearest frame
    /// that binds `id`; `None` where no frame from `at` outward does.
    pub fn offset(&self, at: EnvHandle, id: &String) -> (r: Option<usize>)
        requires
            self.wf(),
        ensures
            r == Self::resolve(self@, at, id@),
        decreases at,
    {
        if at >= self.frames.len() {
            return None;
        }
        let i = self.frames[at].find(id);
        if i < self.frames[at].names.len() {
            Some(0)
        } else {
            match self.frames[at].enclosing {
                Some(p) => match self.offset(p, id) {
                    Some(k) => {
                        proof {
                            lemma_resolve_bound(self@, p, id@);
                        }
                        Some(k + 1)
                    },
                    None => None,
                },
                None => None,
            }
        }
    }

    /// Marks the frame `at` as captured by a function, so that it stays
    /// in the table when its scope is left.
    pub fn capture(&mut self, at: EnvHandle)
        requires
            old(self).wf(),
            at < old(self)@.len(),
        ensures
            final(self)@ == Self::captured(old(self)@, at),
            final(self).wf(),
            Self::extends(old(self)@, final(self)@),
            Self::keeps_names(old(self)@, final(self)@),
    {
        let ghost before = self@;
        self.frames[at].captured = true;
        assert(self.frames[at as int]@ =~= before[at as int].held()) by {
            assert(self.frames[at as int]@.values =~= before[at as int].values);
            assert(self.frames[at as int]@.names =~= before[at as int].names);
        }
        assert(self@ =~= Self::captured(before, at));
    }

    /// Leaves the scopes entered since the table had `mark` frames:
    /// takes the frames from `mark` on off the end of the table, as far
    /// as no function has captured them.
    pub fn release(&mut self, mark: usize)
        requires
            old(self).wf(),
        ensures
            final(self)@ == Self::released(old(self)@, mark as nat),
            final(self).wf(),
            final(self)@.len() <= old(self)@.len(),
            mark <= old(self)@.len() ==> mark <= final(self)@.len(),
            final(self)@.len() > mark ==> final(self)@.last().captured,
            forall|j: int| 0 <= j < final(self)@.len() ==> final(self)@[j] == old(self)@[j],
    {
        while self.frames.len() > mark && !self.frames[self.frames.len() - 1].captured
            invariant
                self.wf(),
                Self::released(self@, mark as nat) == Self::released(old(self)@, mark as nat),
                self@.len() <= old(self)@.len(),
                mark <= old(self)@.len() ==> mark <= self@.len(),
                forall|j: int| 0 <= j < self@.len() ==> self@[j] == old(self)@[j],
            decreases self.frames.len(),
        {
            let ghost before = self@;
            self.frames.pop();
            assert(self@ =~= before.drop_last());
        }
    }
}

impl Frame {
    /// The first place where the frame binds `id`; the number of its
    /// bindings if there is none.
    pub fn find(&self, id: &String) -> (r: usize)
        ensures
            r == slot(self@.names, id@, 0),
            r <= self.names.len(),
    {
        let mut i: usize = 0;
        while i < self.names.len()
            invariant
                i <= self.names.len(),
                slot(self@.names, id@, 0) == slot(self@.names, id@, i as nat),
            decreases self.names.len() - i,
        {
            if self.names[i] == *id {
                return i;
            }
            i += 1;
        }
        i
    }
}

/// A name is found within as many steps as the frame is deep, and the
/// frame that many steps out binds it.
pub proof fn lemma_resolve_bound(env: EnvView, at: EnvHandle, name: Seq<char>)
    requires
        Env::well_formed(env),
        at < env.len(),
    ensures
        match Env::resolve(env, at, name) {
            Some(k) => {
                &&& k <= env[at as int].depth
                &&& Env::ancestor(env, at, k as nat) is Some
                &&& Env::ancestor(env, at, k as nat)->0 < env.len()
                &&& env[Env::ancestor(env, at, k as nat)->0 as int].has(name)
            },
            None => true,
        },
    decreases at,
{
    if !env[at as int].has(name) {
        match env[at as int].enclosing {
            Some(p) => {
                lemma_resolve_bound(env, p, name);
            },
            None => {},
        }
    }
}

/// A name that is not among the names stands, once it is added, where
/// it was added.
proof fn lemma_slot_of_new(names: Seq<Seq<char>>, name: Seq<char>, from: nat)
    requires
        from <= names.len(),
        slot(names, name, from) >= names.len(),
    ensures
        slot(names.push(name), name, from) == names.len(),
    decreases names.len() - from,
{
    if from < names.len() {
        assert(names.push(name)[from as int] == names[from as int]);
        lemma_slot_of_new(names, name, from + 1);
    }
}

/// A frame binds a name to the value that was last put for it.
pub proof fn lemma_put_binds(frame: FrameView, name: Seq<char>, v: Value)
    requires
        frame.names.len() == frame.values.len(),
    ensures
        frame.put(name, v).has(name),
        frame.put(name, v).lookup(name) == Some(v),
{
    if !frame.has(name) {
        lemma_slot_of_new(frame.names, name, 0);
    }
}

/// No frame nearer than the one a name is found in binds the name, and
/// where it is not found, no frame from `at` outward binds it.
pub proof fn lemma_resolve_nearest(env: EnvView, at: EnvHandle, name: Seq<char>)
    requires
        Env::well_formed(env),
        at < env.len(),
    ensures
        forall|j: nat|
            match Env::resolve(env, at, name) {
                Some(k) => j < k ==> (#[trigger] Env::ancestor(env, at, j)) is Some && !env[Env::ancestor(
                    env,
                    at,
                    j,
                )->0 as int].has(name),
                None => Env::ancestor(env, at, j) is Some ==> !env[Env::ancestor(
                    env,
                    at,
                    j,
                )->0 as int].has(name),
            },
    decreases at,
{
    if !env[at as int].has(name) {
        match env[at as int].enclosing {
            Some(p) => {
                lemma_resolve_nearest(env, p, name);
                assert forall|j: nat| j > 0 implies #[trigger] Env::ancestor(env, at, j)
                    == Env::ancestor(env, p, (j - 1) as nat) by {}
            },
            None => {},
        }
    }
}

impl FrameView {
    /// The names of the frame from the `from`th on, each on a line of
    /// its own behind a tab.
    pub open spec fn listing(self, from: nat) -> Seq<char>
        decreases self.names.len() - from,
    {
        if from >= self.names.len() {
            Seq::empty()
        } else {
            "\t"@ + self.names[from as int] + "\n"@ + self.listing(from + 1)
        }
    }

    /// The frame written out: its depth, and under it its names.
    pub open spec fn describe(self) -> Seq<char> {
        "Env @ "@ + decimal_digits(self.depth as nat) + "\n"@ + self.listing(0)
    }
}

impl Frame {
    /// Writes the frame out.
    pub fn display(&self) -> (r: String)
        ensures
            r@ == self@.describe(),
    {
        let mut out = String::from_str("Env @ ");
        push_decimal(&mut out, self.depth);
        out.append("\n");
        let ghost head = out@;
        let mut i: usize = 0;
        while i < self.names.len()
            invariant
                i <= self.names.len(),
                out@ + self@.listing(i as nat) == head + self@.listing(0),
            decreases self.names.len() - i,
        {
            let ghost before = out@;
            out.append("\t");
            out.append(self.names[i].as_str());
            out.append("\n");
            assert(self@.names[i as int] == self.names[i as int]@);
            assert(out@ + self@.listing((i + 1) as nat) =~= before + self@.listing(i as nat));
            i += 1;
        }
        assert(out@ + self@.listing(i as nat) =~= out@);
        out
    }
}

} // verus!
