//! Scope frames, the evaluation context, and the output channel.
//!
//! A `Context` is an ordered stack of scope frames, innermost last, plus the
//! output written so far.  It is created fresh for every program run and
//! discarded at the end; no state survives across runs.

use vstd::prelude::*;

verus! {

/// A binding: its mutability and its current value.
#[derive(Clone, Copy, PartialEq, Eq, Structural, Debug)]
pub struct Binding {
    pub mutable: bool,
    pub value: i64,
}

/// One named binding inside a scope frame.
#[derive(Debug)]
pub struct Entry {
    pub name: Vec<u8>,
    pub binding: Binding,
}

impl View for Entry {
    type V = (Seq<u8>, Binding);

    open spec fn view(&self) -> (Seq<u8>, Binding) {
        (self.name@, self.binding)
    }
}

/// A scope frame: an ordered mapping from names to bindings.  Lookups take
/// the first entry with the name; binds overwrite that entry, so a frame
/// built through `bind` holds at most one entry per name.
#[derive(Debug)]
pub struct Frame {
    pub entries: Vec<Entry>,
}

impl View for Frame {
    type V = Seq<(Seq<u8>, Binding)>;

    open spec fn view(&self) -> Seq<(Seq<u8>, Binding)> {
        Seq::new(self.entries@.len(), |i: int| self.entries@[i]@)
    }
}

/// The binding a frame gives to a name: the first entry that carries it.
pub open spec fn frame_lookup(f: Seq<(Seq<u8>, Binding)>, name: Seq<u8>) -> Option<Binding>
    decreases f.len(),
{
    if f.len() == 0 {
        None
    } else if f[0].0 == name {
        Some(f[0].1)
    } else {
        frame_lookup(f.skip(1), name)
    }
}

/// A frame after inserting or overwriting the binding for a name.
pub open spec fn frame_bind(
    f: Seq<(Seq<u8>, Binding)>,
    name: Seq<u8>,
    b: Binding,
) -> Seq<(Seq<u8>, Binding)>
    decreases f.len(),
{
    if f.len() == 0 {
        seq![(name, b)]
    } else if f[0].0 == name {
        seq![(name, b)].add(f.skip(1))
    } else {
        seq![f[0]].add(frame_bind(f.skip(1), name, b))
    }
}

/// A frame after overwriting only the value of an existing binding; the
/// mutability flag is kept.  A frame without the name is left unchanged.
pub open spec fn frame_set_value(
    f: Seq<(Seq<u8>, Binding)>,
    name: Seq<u8>,
    v: i64,
) -> Seq<(Seq<u8>, Binding)>
    decreases f.len(),
{
    if f.len() == 0 {
        f
    } else if f[0].0 == name {
        seq![(f[0].0, Binding { mutable: f[0].1.mutable, value: v })].add(f.skip(1))
    } else {
        seq![f[0]].add(frame_set_value(f.skip(1), name, v))
    }
}

/// Innermost-to-outermost search over the frame stack: the index of the
/// nearest frame that defines the name, with the binding found there.
pub open spec fn find_in_frames(
    frames: Seq<Seq<(Seq<u8>, Binding)>>,
    name: Seq<u8>,
) -> Option<(int, Binding)>
    decreases frames.len(),
{
    if frames.len() == 0 {
        None
    } else {
        match frame_lookup(frames.last(), name) {
            Some(b) => Some(((frames.len() - 1) as int, b)),
            None => find_in_frames(frames.drop_last(), name),
        }
    }
}

/// One item written to the output channel, specification form.
pub enum OutputItemSpec {
    /// The decimal value of an evaluated expression.
    Value(i64),
    /// Literal text.
    Text(Seq<u8>),
}

/// One item written to the output channel.
#[derive(Debug, PartialEq, Eq)]
pub enum OutputItem {
    /// The decimal value of an evaluated expression.
    Value(i64),
    /// Literal text.
    Text(Vec<u8>),
}

impl View for OutputItem {
    type V = OutputItemSpec;

    open spec fn view(&self) -> OutputItemSpec {
        match self {
            OutputItem::Value(v) => OutputItemSpec::Value(*v),
            OutputItem::Text(t) => OutputItemSpec::Text(t@),
        }
    }
}

/// The mathematical model of a context: the frame stack and the output.
pub struct StateSpec {
    pub frames: Seq<Seq<(Seq<u8>, Binding)>>,
    pub out: Seq<OutputItemSpec>,
}

/// The state a fresh run starts from: one empty global frame, no output.
pub open spec fn init_state() -> StateSpec {
    StateSpec { frames: seq![Seq::empty()], out: Seq::empty() }
}

/// The state before a run's program block pushes the global frame.
pub open spec fn blank_state() -> StateSpec {
    StateSpec { frames: Seq::empty(), out: Seq::empty() }
}

/// The specification-level form of a captured output channel.
pub open spec fn out_view(o: Vec<OutputItem>) -> Seq<OutputItemSpec> {
    Seq::new(o@.len(), |i: int| o@[i]@)
}

/// The evaluation context of one program run.
#[derive(Debug)]
pub struct Context {
    pub scopes: Vec<Frame>,
    pub output: Vec<OutputItem>,
}

impl View for Context {
    type V = StateSpec;

    open spec fn view(&self) -> StateSpec {
        StateSpec {
            frames: Seq::new(self.scopes@.len(), |i: int| self.scopes@[i]@),
            out: Seq::new(self.output@.len(), |i: int| self.output@[i]@),
        }
    }
}

/// Compares two names byte for byte.
pub fn bytes_eq(a: &Vec<u8>, b: &Vec<u8>) -> (r: bool)
    ensures
        r == (a@ == b@),
{
    if a.len() != b.len() {
        return false;
    }
    let mut i: usize = 0;
    while i < a.len()
        invariant
            i <= a@.len(),
            a@.len() == b@.len(),
            forall|j: int| 0 <= j < i ==> a@[j] == b@[j],
        decreases a@.len() - i,
    {
        if a[i] != b[i] {
            return false;
        }
        i += 1;
    }
    proof {
        assert(a@ =~= b@);
    }
    true
}

/// `frame_bind` on a frame whose first match for the name sits at index `j`
/// is an in-place update of that entry.
proof fn lemma_frame_bind_update(
    f: Seq<(Seq<u8>, Binding)>,
    name: Seq<u8>,
    b: Binding,
    j: int,
)
    requires
        0 <= j < f.len(),
        f[j].0 == name,
        forall|m: int| 0 <= m < j ==> f[m].0 != name,
    ensures
        frame_bind(f, name, b) == f.update(j, (name, b)),
    decreases f.len(),
{
    if j == 0 {
        assert(frame_bind(f, name, b) =~= f.update(0, (name, b)));
    } else {
        lemma_frame_bind_update(f.skip(1), name, b, j - 1);
        assert(frame_bind(f, name, b) =~= f.update(j, (name, b)));
    }
}

/// `frame_bind` on a frame without the name appends a fresh entry.
proof fn lemma_frame_bind_push(f: Seq<(Seq<u8>, Binding)>, name: Seq<u8>, b: Binding)
    requires
        forall|m: int| 0 <= m < f.len() ==> f[m].0 != name,
    ensures
        frame_bind(f, name, b) == f.push((name, b)),
    decreases f.len(),
{
    if f.len() == 0 {
        assert(frame_bind(f, name, b) =~= f.push((name, b)));
    } else {
        lemma_frame_bind_push(f.skip(1), name, b);
        assert(frame_bind(f, name, b) =~= f.push((name, b)));
    }
}

/// `frame_set_value` on a frame whose first match sits at index `j` is an
/// in-place update of that entry's value.
proof fn lemma_frame_set_value_update(
    f: Seq<(Seq<u8>, Binding)>,
    name: Seq<u8>,
    v: i64,
    j: int,
)
    requires
        0 <= j < f.len(),
        f[j].0 == name,
        forall|m: int| 0 <= m < j ==> f[m].0 != name,
    ensures
        frame_set_value(f, name, v) == f.update(
            j,
            (f[j].0, Binding { mutable: f[j].1.mutable, value: v }),
        ),
    decreases f.len(),
{
    if j == 0 {
        assert(frame_set_value(f, name, v) =~= f.update(
            0,
            (f[0].0, Binding { mutable: f[0].1.mutable, value: v }),
        ));
    } else {
        lemma_frame_set_value_update(f.skip(1), name, v, j - 1);
        assert(frame_set_value(f, name, v) =~= f.update(
            j,
            (f[j].0, Binding { mutable: f[j].1.mutable, value: v }),
        ));
    }
}

/// `frame_set_value` leaves a frame without the name unchanged.
proof fn lemma_frame_set_value_absent(f: Seq<(Seq<u8>, Binding)>, name: Seq<u8>, v: i64)
    requires
        forall|m: int| 0 <= m < f.len() ==> f[m].0 != name,
    ensures
        frame_set_value(f, name, v) == f,
    decreases f.len(),
{
    if f.len() > 0 {
        lemma_frame_set_value_absent(f.skip(1), name, v);
        assert(frame_set_value(f, name, v) =~= f);
    }
}

impl Frame {
    /// A frame with no bindings.
    pub fn new() -> (f: Frame)
        ensures
            f@ == Seq::<(Seq<u8>, Binding)>::empty(),
    {
        let f = Frame { entries: Vec::new() };
        proof {
            assert(f@ =~= Seq::<(Seq<u8>, Binding)>::empty());
        }
        f
    }

    /// The binding this frame gives to a name, if any.
    pub fn lookup(&self, name: &Vec<u8>) -> (r: Option<Binding>)
        ensures
            r == frame_lookup(self@, name@),
    {
        let mut i: usize = 0;
        proof {
            assert(self@.skip(0) =~= self@);
        }
        while i < self.entries.len()
            invariant
                i <= self.entries@.len(),
                frame_lookup(self@, name@) == frame_lookup(self@.skip(i as int), name@),
            decreases self.entries@.len() - i,
        {
            proof {
                assert(self@.skip(i as int)[0] == self@[i as int]);
            }
            if bytes_eq(&self.entries[i].name, name) {
                return Some(self.entries[i].binding);
            }
            proof {
                assert(self@.skip(i as int).skip(1) =~= self@.skip(i as int + 1));
            }
            i += 1;
        }
        None
    }

    /// Inserts or overwrites the binding for the name.
    pub fn bind(&mut self, name: &Vec<u8>, b: Binding)
        ensures
            final(self)@ == frame_bind(old(self)@, name@, b),
    {
        let mut i: usize = 0;
        while i < self.entries.len()
            invariant
                i <= self.entries@.len(),
                *self == *old(self),
                forall|m: int| 0 <= m < i ==> old(self)@[m].0 != name@,
            decreases self.entries@.len() - i,
        {
            if bytes_eq(&self.entries[i].name, name) {
                self.entries[i].binding = b;
                proof {
                    lemma_frame_bind_update(old(self)@, name@, b, i as int);
                    assert(self@ =~= old(self)@.update(i as int, (name@, b)));
                }
                return;
            }
            i += 1;
        }
        self.entries.push(Entry { name: vstd::slice::slice_to_vec(name.as_slice()), binding: b });
        proof {
            lemma_frame_bind_push(old(self)@, name@, b);
            assert(self@ =~= old(self)@.push((name@, b)));
        }
    }

    /// Overwrites only the value of an existing binding, keeping its
    /// mutability; does nothing when the name is absent.
    pub fn set_value(&mut self, name: &Vec<u8>, v: i64)
        ensures
            final(self)@ == frame_set_value(old(self)@, name@, v),
    {
        let mut i: usize = 0;
        while i < self.entries.len()
            invariant
                i <= self.entries@.len(),
                *self == *old(self),
                forall|m: int| 0 <= m < i ==> old(self)@[m].0 != name@,
            decreases self.entries@.len() - i,
        {
            if bytes_eq(&self.entries[i].name, name) {
                self.entries[i].binding.value = v;
                proof {
                    lemma_frame_set_value_update(old(self)@, name@, v, i as int);
                    assert(self@ =~= old(self)@.update(
                        i as int,
                        (old(self)@[i as int].0,
                        Binding { mutable: old(self)@[i as int].1.mutable, value: v }),
                    ));
                }
                return;
            }
            i += 1;
        }
        proof {
            lemma_frame_set_value_absent(old(self)@, name@, v);
            assert(self@ =~= old(self)@);
        }
    }
}

impl Context {
    /// A context always keeps at least the global frame of the current run.
    pub open spec fn wf(&self) -> bool {
        self@.frames.len() >= 1
    }

    /// A fresh context: one empty global frame and no output.
    pub fn new() -> (c: Context)
        ensures
            c.wf(),
            c@ == init_state(),
    {
        let mut scopes: Vec<Frame> = Vec::new();
        scopes.push(Frame::new());
        let c = Context { scopes, output: Vec::new() };
        proof {
            assert(c@.frames =~= init_state().frames);
            assert(c@.out =~= init_state().out);
        }
        c
    }

    /// The innermost scope frame.
    pub fn current_scope(&self) -> (f: &Frame)
        requires
            self.wf(),
        ensures
            f@ == self@.frames.last(),
    {
        &self.scopes[self.scopes.len() - 1]
    }

    /// Enters a block: pushes a fresh, empty frame.
    pub fn push_scope(&mut self)
        ensures
            final(self)@.frames == old(self)@.frames.push(Seq::empty()),
            final(self)@.out == old(self)@.out,
            final(self).wf(),
    {
        self.scopes.push(Frame::new());
        proof {
            assert(self@.frames =~= old(self)@.frames.push(Seq::empty()));
            assert(self@.out =~= old(self)@.out);
        }
    }

    /// Leaves a block: pops the innermost frame.
    pub fn pop_scope(&mut self)
        requires
            old(self).wf(),
        ensures
            final(self)@.frames == old(self)@.frames.drop_last(),
            final(self)@.out == old(self)@.out,
    {
        let _ = self.scopes.pop();
        proof {
            assert(self@.frames =~= old(self)@.frames.drop_last());
            assert(self@.out =~= old(self)@.out);
        }
    }

    /// Innermost-to-outermost search for the name over the whole stack.
    pub fn find(&self, name: &Vec<u8>) -> (r: Option<(usize, Binding)>)
        ensures
            match r {
                Some(p) => find_in_frames(self@.frames, name@) == Some((p.0 as int, p.1))
                    && p.0 < self@.frames.len(),
                None => find_in_frames(self@.frames, name@) is None,
            },
    {
        let mut k: usize = self.scopes.len();
        proof {
            assert(self@.frames.take(self.scopes@.len() as int) =~= self@.frames);
        }
        while k > 0
            invariant
                k <= self.scopes@.len(),
                find_in_frames(self@.frames, name@) == find_in_frames(
                    self@.frames.take(k as int),
                    name@,
                ),
            decreases k,
        {
            k = k - 1;
            let r = self.scopes[k].lookup(name);
            proof {
                assert(self@.frames.take(k as int + 1).last() == self@.frames[k as int]);
                assert(self@.frames.take(k as int + 1).drop_last() =~= self@.frames.take(
                    k as int,
                ));
            }
            match r {
                Some(b) => {
                    return Some((k, b));
                },
                None => {},
            }
        }
        proof {
            assert(self@.frames.take(0) =~= Seq::<Seq<(Seq<u8>, Binding)>>::empty());
        }
        None
    }

    /// Inserts or overwrites a binding in the innermost frame.
    pub fn bind_innermost(&mut self, name: &Vec<u8>, b: Binding)
        requires
            old(self).wf(),
        ensures
            final(self)@.frames == old(self)@.frames.update(
                old(self)@.frames.len() - 1,
                frame_bind(old(self)@.frames.last(), name@, b),
            ),
            final(self)@.out == old(self)@.out,
            final(self).wf(),
    {
        let k = self.scopes.len() - 1;
        let mut f = match self.scopes.pop() {
            Some(f) => f,
            None => {
                proof {
                    assert(false);
                }
                Frame { entries: Vec::new() }
            },
        };
        f.bind(name, b);
        self.scopes.push(f);
        proof {
            assert(self@.frames =~= old(self)@.frames.update(
                old(self)@.frames.len() - 1,
                frame_bind(old(self)@.frames.last(), name@, b),
            ));
            assert(self@.out =~= old(self)@.out);
        }
    }

    /// Overwrites the value of the binding for the name in frame `k`.
    pub fn set_value_in(&mut self, k: usize, name: &Vec<u8>, v: i64)
        requires
            k < old(self)@.frames.len(),
        ensures
            final(self)@.frames == old(self)@.frames.update(
                k as int,
                frame_set_value(old(self)@.frames[k as int], name@, v),
            ),
            final(self)@.out == old(self)@.out,
    {
        self.scopes[k].set_value(name, v);
        proof {
            assert(self@.frames =~= old(self)@.frames.update(
                k as int,
                frame_set_value(old(self)@.frames[k as int], name@, v),
            ));
            assert(self@.out =~= old(self)@.out);
        }
    }

    /// Appends one item to the output channel.
    pub fn emit(&mut self, item: OutputItem)
        ensures
            final(self)@.frames == old(self)@.frames,
            final(self)@.out == old(self)@.out.push(item@),
    {
        self.output.push(item);
        proof {
            assert(self@.frames =~= old(self)@.frames);
            assert(self@.out =~= old(self)@.out.push(item@));
        }
    }
}

} // verus!
