//! Class initialization: at most once per class, superclass first.
use vstd::prelude::*;
use crate::class::{has_clinit, is_clinit, Class};
use crate::jvm::Jvm;
use crate::thread::{is_fresh_frame, Frame, Thread};

verus! {

/// The classes that initializing `c` marks, in the order it reaches them:
/// `c` unless it is initialized already, then (for a class, not an
/// interface) its superclass by the same rule.
pub open spec fn init_order(cs: Seq<Class>, c: int) -> Seq<usize>
    decreases c,
{
    if !(0 <= c < cs.len()) || cs[c].initialized {
        Seq::empty()
    } else {
        let rest = if cs[c].spec_is_interface() {
            Seq::empty()
        } else {
            match cs[c].super_class {
                Some(s) => if (s as int) < c {
                    init_order(cs, s as int)
                } else {
                    Seq::empty()
                },
                None => Seq::empty(),
            }
        };
        seq![c as usize] + rest
    }
}

/// The classes among `init_order` that have a class initializer: one frame
/// is pushed for each, in this order, so the last (the farthest superclass)
/// runs first.
pub open spec fn init_frames(cs: Seq<Class>, c: int) -> Seq<usize>
    decreases c,
{
    if !(0 <= c < cs.len()) || cs[c].initialized {
        Seq::empty()
    } else {
        let own = if has_clinit(cs[c]) {
            seq![c as usize]
        } else {
            Seq::empty()
        };
        let rest = if cs[c].spec_is_interface() {
            Seq::empty()
        } else {
            match cs[c].super_class {
                Some(s) => if (s as int) < c {
                    init_frames(cs, s as int)
                } else {
                    Seq::empty()
                },
                None => Seq::empty(),
            }
        };
        own + rest
    }
}

/// `f` is a fresh frame for the class initializer of class `x`.
pub open spec fn is_clinit_frame(cs: Seq<Class>, f: Frame, x: int) -> bool {
    &&& 0 <= x < cs.len()
    &&& f.method < cs[x].methods@.len()
    &&& is_clinit(cs[x].methods@[f.method as int])
    &&& is_fresh_frame(f, x, f.method as int, cs[x].methods@[f.method as int].max_locals as int)
}

/// `after` is `before` with the classes of `order` marked initialized.
pub open spec fn marked(before: Seq<Class>, after: Seq<Class>, order: Seq<usize>) -> bool {
    &&& after.len() == before.len()
    &&& forall|x: int|
        0 <= x < before.len() ==> #[trigger] after[x] == (Class {
            initialized: before[x].initialized || order.contains(x as usize),
            ..before[x]
        })
}

/// `after` has the initialization flags of `before`, with those of the
/// classes of `order` set.
pub open spec fn flags_marked(before: Seq<Class>, after: Seq<Class>, order: Seq<usize>) -> bool {
    &&& after.len() == before.len()
    &&& forall|x: int|
        0 <= x < before.len() ==> #[trigger] after[x].initialized == (before[x].initialized
            || order.contains(x as usize))
}

/// Initialization reads no constant pool: memoizing resolutions leaves the
/// order and the frames as they were.
pub proof fn lemma_init_same_but_pool(a: Seq<Class>, b: Seq<Class>, c: int)
    requires
        a.len() == b.len(),
        forall|x: int| 0 <= x < a.len() ==> crate::jvm::same_but_pool(#[trigger] b[x], a[x]),
    ensures
        init_order(a, c) == init_order(b, c),
        init_frames(a, c) == init_frames(b, c),
        forall|fin: Seq<Class>|
            marked(b, fin, init_order(b, c)) ==> #[trigger] flags_marked(a, fin, init_order(a, c)),
    decreases c,
{
    if 0 <= c < a.len() {
        assert(crate::jvm::same_but_pool(b[c], a[c]));
        if !a[c].initialized && !a[c].spec_is_interface() {
            if let Some(t) = a[c].super_class {
                if (t as int) < c {
                    lemma_init_same_but_pool(a, b, t as int);
                }
            }
        }
    }
    assert forall|fin: Seq<Class>| marked(b, fin, init_order(b, c)) implies #[trigger] flags_marked(
        a,
        fin,
        init_order(a, c),
    ) by {
        assert forall|x: int| 0 <= x < a.len() implies #[trigger] fin[x].initialized == (a[x].initialized
            || init_order(a, c).contains(x as usize)) by {
            assert(crate::jvm::same_but_pool(b[x], a[x]));
            assert(fin[x] == (Class { initialized: b[x].initialized || init_order(b, c).contains(x as usize), ..b[x] }));
        }
    }
}

/// `after` is `before` with frames pushed for the classes of `order`.
pub open spec fn pushed(cs: Seq<Class>, before: Thread, after: Thread, order: Seq<usize>) -> bool {
    &&& after.pc == before.pc
    &&& after.frames@.len() == before.frames@.len() + order.len()
    &&& after.frames@.subrange(0, before.frames@.len() as int) == before.frames@
    &&& forall|k: int|
        0 <= k < order.len() ==> is_clinit_frame(
            cs,
            #[trigger] after.frames@[before.frames@.len() + k],
            order[k] as int,
        )
}

/// Initialization of `s` reads only the classes up to `s`.
proof fn lemma_init_order_local(a: Seq<Class>, b: Seq<Class>, s: int)
    requires
        a.len() == b.len(),
        forall|x: int| 0 <= x <= s && x < a.len() ==> a[x] == b[x],
    ensures
        init_order(a, s) == init_order(b, s),
        init_frames(a, s) == init_frames(b, s),
    decreases s,
{
    if 0 <= s < a.len() && !a[s].initialized && !a[s].spec_is_interface() {
        if let Some(t) = a[s].super_class {
            if (t as int) < s {
                lemma_init_order_local(a, b, t as int);
            }
        }
    }
}

/// Flipping initialization flags keeps every invariant of the runtime.
proof fn lemma_mark_keeps_wf(a: Seq<Class>, b: Seq<Class>, t: Thread, heap: Seq<crate::heap::Object>)
    requires
        b.len() == a.len(),
        forall|x: int| 0 <= x < a.len() ==> #[trigger] b[x] == (Class { initialized: b[x].initialized, ..a[x] }),
        crate::class_loader::classes_wf(a),
        crate::class_loader::layouts_wf(a),
        crate::jvm::memos_ok(a),
        crate::jvm::frames_ok(a, t),
        crate::jvm::objects_ok(a, heap),
    ensures
        crate::class_loader::classes_wf(b),
        crate::class_loader::layouts_wf(b),
        crate::jvm::memos_ok(b),
        crate::jvm::frames_ok(b, t),
        crate::jvm::objects_ok(b, heap),
{
    assert forall|x: int| 0 <= x < b.len() implies #[trigger] crate::class_loader::laid_out(b, x) by {
        assert(crate::class_loader::laid_out(a, x));
        assert(b[x] == (Class { initialized: b[x].initialized, ..a[x] }));
        if let Some(s) = a[x].super_class {
            assert(b[s as int] == (Class { initialized: b[s as int].initialized, ..a[s as int] }));
        }
    }
    assert forall|x: int, i: int|
        0 <= x < b.len() && 0 <= i < b[x].constant_pool@.len() implies crate::jvm::memo_ok(
        b,
        #[trigger] b[x].constant_pool@[i],
    ) by {
        assert(b[x] == (Class { initialized: b[x].initialized, ..a[x] }));
        assert(crate::jvm::memo_ok(a, a[x].constant_pool@[i]));
        assert(forall|y: int| 0 <= y < a.len() ==> #[trigger] b[y].fields == a[y].fields && b[y].methods == a[y].methods);
    }
    assert forall|p: int, q: int|
        0 <= p < b.len() && 0 <= q < b.len() && p != q implies #[trigger] b[p].name@ != #[trigger] b[q].name@ by {
        assert(b[p] == (Class { initialized: b[p].initialized, ..a[p] }));
        assert(b[q] == (Class { initialized: b[q].initialized, ..a[q] }));
    }
    assert forall|k: int| 0 <= k < t.frames@.len() implies {
        let f = #[trigger] t.frames@[k];
        f.class < b.len() && f.method < b[f.class as int].methods@.len()
    } by {
        let f = t.frames@[k];
        assert(b[f.class as int] == (Class { initialized: b[f.class as int].initialized, ..a[f.class as int] }));
    }
}

proof fn lemma_init_frames_below(cs: Seq<Class>, c: int)
    requires
        cs.len() <= usize::MAX,
        crate::class_loader::classes_wf(cs),
    ensures
        forall|k: int| 0 <= k < init_frames(cs, c).len() ==> #[trigger] init_frames(cs, c)[k] <= c,
        forall|k: int| 0 < k < init_frames(cs, c).len() ==> #[trigger] init_frames(cs, c)[k] != c,
    decreases c,
{
    if 0 <= c < cs.len() && !cs[c].initialized && !cs[c].spec_is_interface() {
        if let Some(s) = cs[c].super_class {
            lemma_init_frames_below(cs, s as int);
            let own: Seq<usize> = if has_clinit(cs[c]) { seq![c as usize] } else { Seq::empty() };
            assert(init_frames(cs, c) =~= own + init_frames(cs, s as int));
        }
    }
}

/// Initialization idempotence. Initializing a class leaves it marked
/// initialized and schedules its class initializer at most once (only as the
/// first frame pushed); initializing it again marks nothing and pushes
/// nothing.
pub proof fn lemma_init_idempotent(cs0: Seq<Class>, cs1: Seq<Class>, c: int)
    requires
        cs0.len() <= usize::MAX,
        crate::class_loader::classes_wf(cs0),
        0 <= c < cs0.len(),
        marked(cs0, cs1, init_order(cs0, c)),
    ensures
        cs1[c].initialized,
        init_order(cs1, c) == Seq::<usize>::empty(),
        init_frames(cs1, c) == Seq::<usize>::empty(),
        forall|k: int| 0 < k < init_frames(cs0, c).len() ==> #[trigger] init_frames(cs0, c)[k] != c,
{
    if !cs0[c].initialized {
        assert(init_order(cs0, c)[0] == c as usize);
    }
    assert(cs1[c] == (Class {
        initialized: cs0[c].initialized || init_order(cs0, c).contains(c as usize),
        ..cs0[c]
    }));
    lemma_init_frames_below(cs0, c);
}

/// Superclass-first initialization. When class `b` extends `a` and neither
/// is initialized, initializing `b` marks `a` initialized too, and the frame
/// for `a`'s class initializer is pushed right above `b`'s, so it runs and
/// finishes first.
pub proof fn lemma_super_first(cs: Seq<Class>, b: int, a: int)
    requires
        crate::class_loader::classes_wf(cs),
        cs.len() <= usize::MAX,
        0 <= a < cs.len(),
        0 <= b < cs.len(),
        !cs[b].initialized,
        !cs[b].spec_is_interface(),
        cs[b].super_class == Some(a as usize),
        !cs[a].initialized,
        has_clinit(cs[b]),
        has_clinit(cs[a]),
    ensures
        init_order(cs, b).contains(a as usize),
        init_frames(cs, b).len() >= 2,
        init_frames(cs, b)[0] == b,
        init_frames(cs, b)[1] == a,
{
    let cb = cs[b];
    assert(a < b);
    assert(init_order(cs, a)[0] == a as usize);
    assert(init_order(cs, b)[1] == a as usize);
    assert(init_frames(cs, a)[0] == a as usize);
    assert(init_frames(cs, b) =~= seq![b as usize] + init_frames(cs, a));
}

/// Superclass-first initialization, exactly: when `a`, the superclass of
/// `b`, has no uninitialized superclass itself, initializing `b` pushes two
/// frames, `b`'s initializer and then `a`'s on top.
pub proof fn lemma_super_first_exact(cs: Seq<Class>, b: int, a: int)
    requires
        crate::class_loader::classes_wf(cs),
        cs.len() <= usize::MAX,
        0 <= a < cs.len(),
        0 <= b < cs.len(),
        !cs[b].initialized,
        !cs[b].spec_is_interface(),
        cs[b].super_class == Some(a as usize),
        !cs[a].initialized,
        !cs[a].spec_is_interface(),
        has_clinit(cs[b]),
        has_clinit(cs[a]),
        match cs[a].super_class {
            Some(s) => cs[s as int].initialized,
            None => true,
        },
    ensures
        init_frames(cs, b) == seq![b as usize, a as usize],
        init_order(cs, b) == seq![b as usize, a as usize],
{
    let cb = cs[b];
    let ca = cs[a];
    assert(a < b);
    match ca.super_class {
        Some(s) => {
            assert(init_frames(cs, s as int) =~= Seq::<usize>::empty());
            assert(init_order(cs, s as int) =~= Seq::<usize>::empty());
        },
        None => {},
    }
    assert(init_frames(cs, a) =~= seq![a as usize]);
    assert(init_order(cs, a) =~= seq![a as usize]);
    assert(init_frames(cs, b) =~= seq![b as usize, a as usize]);
    assert(init_order(cs, b) =~= seq![b as usize, a as usize]);
}

proof fn lemma_marked_refl(cs: Seq<Class>)
    ensures
        marked(cs, cs, Seq::empty()),
{
    assert forall|x: int| 0 <= x < cs.len() implies #[trigger] cs[x] == (Class {
        initialized: cs[x].initialized || Seq::<usize>::empty().contains(x as usize),
        ..cs[x]
    }) by {}
}

proof fn lemma_pushed_refl(cs: Seq<Class>, t: Thread)
    ensures
        pushed(cs, t, t, Seq::empty()),
{
    assert(t.frames@.subrange(0, t.frames@.len() as int) =~= t.frames@);
}

proof fn lemma_marked_trans(a: Seq<Class>, b: Seq<Class>, c: Seq<Class>, o1: Seq<usize>, o2: Seq<usize>)
    requires
        marked(a, b, o1),
        marked(b, c, o2),
    ensures
        marked(a, c, o1 + o2),
{
    assert forall|x: int| 0 <= x < a.len() implies #[trigger] c[x] == (Class {
        initialized: a[x].initialized || (o1 + o2).contains(x as usize),
        ..a[x]
    }) by {
        assert(b[x] == (Class { initialized: a[x].initialized || o1.contains(x as usize), ..a[x] }));
        assert(c[x] == (Class { initialized: b[x].initialized || o2.contains(x as usize), ..b[x] }));
        let v = x as usize;
        if o1.contains(v) {
            let i = choose|i: int| 0 <= i < o1.len() && o1[i] == v;
            assert((o1 + o2)[i] == v);
        }
        if o2.contains(v) {
            let i = choose|i: int| 0 <= i < o2.len() && o2[i] == v;
            assert((o1 + o2)[o1.len() + i] == v);
        }
        if (o1 + o2).contains(v) {
            let i = choose|i: int| 0 <= i < (o1 + o2).len() && (o1 + o2)[i] == v;
            if i < o1.len() {
                assert(o1[i] == v);
            } else {
                assert(o2[i - o1.len()] == v);
            }
        }
    }
}

proof fn lemma_pushed_trans(
    a: Seq<Class>,
    b: Seq<Class>,
    t0: Thread,
    t1: Thread,
    t2: Thread,
    o1: Seq<usize>,
    o2: Seq<usize>,
)
    requires
        pushed(a, t0, t1, o1),
        pushed(b, t1, t2, o2),
        a.len() == b.len(),
        forall|x: int| 0 <= x < a.len() ==> #[trigger] b[x].methods == a[x].methods,
    ensures
        pushed(a, t0, t2, o1 + o2),
{
    let n0 = t0.frames@.len() as int;
    let n1 = t1.frames@.len() as int;
    assert(t2.frames@.subrange(0, n0) =~= t1.frames@.subrange(0, n0));
    assert forall|k: int| 0 <= k < (o1 + o2).len() implies is_clinit_frame(
        a,
        #[trigger] t2.frames@[n0 + k],
        (o1 + o2)[k] as int,
    ) by {
        if k < o1.len() {
            assert(t2.frames@[n0 + k] == t1.frames@[n0 + k]);
            assert(is_clinit_frame(a, t1.frames@[n0 + k], o1[k] as int));
        } else {
            let j = k - o1.len();
            assert(is_clinit_frame(b, t2.frames@[n1 + j], o2[j] as int));
            assert(b[o2[j] as int].methods == a[o2[j] as int].methods);
        }
    }
}

impl Jvm {
    /// Pushes a frame for the class initializer of `c`, if it has one.
    fn schedule_clinit(&mut self, c: usize)
        requires
            old(self).wf(),
            c < old(self).loader@.len(),
        ensures
            final(self).wf(),
            final(self).loader == old(self).loader,
            final(self).heap == old(self).heap,
            final(self).registry == old(self).registry,
            final(self).lookups == old(self).lookups,
            pushed(
                old(self).loader@,
                old(self).main_thread,
                final(self).main_thread,
                if has_clinit(old(self).loader@[c as int]) {
                    seq![c]
                } else {
                    Seq::empty()
                },
            ),
    {
        let ghost before = self.main_thread;
        match self.loader.classes[c].get_clinit_method() {
            Some(m) => {
                let max_locals = self.loader.classes[c].methods[m].max_locals;
                let f = Frame::new(c, m, max_locals);
                self.main_thread.push_frame(f);
                proof {
                    let t = self.main_thread;
                    assert(t.frames@.subrange(0, before.frames@.len() as int) =~= before.frames@);
                    assert(t.frames@[before.frames@.len() as int] == f);
                }
            },
            None => {
                proof {
                    assert(self.main_thread.frames@.subrange(0, before.frames@.len() as int) =~= before.frames@);
                }
            },
        }
    }

    /// Initializes class `c`: nothing when it is initialized already;
    /// otherwise marks it initialized first (so a cycle stops here), pushes a
    /// frame for its class initializer, and then, unless it is an
    /// interface, initializes its superclass the same way, whose frame lands
    /// above and so runs first.
    pub fn init_class(&mut self, c: usize)
        requires
            old(self).wf(),
            c < old(self).loader@.len(),
        ensures
            final(self).wf(),
            marked(old(self).loader@, final(self).loader@, init_order(old(self).loader@, c as int)),
            pushed(
                old(self).loader@,
                old(self).main_thread,
                final(self).main_thread,
                init_frames(old(self).loader@, c as int),
            ),
            final(self).heap == old(self).heap,
            final(self).registry == old(self).registry,
            final(self).lookups == old(self).lookups,
        decreases c,
    {
        let ghost cs0 = self.loader@;
        let ghost t0 = self.main_thread;
        let _n = self.loader.classes.len();
        if self.loader.classes[c].initialized {
            proof {
                lemma_marked_refl(cs0);
                lemma_pushed_refl(cs0, t0);
            }
            return;
        }
        self.loader.classes[c].initialized = true;
        let ghost cs1 = self.loader@;
        proof {
            lemma_mark_keeps_wf(cs0, cs1, self.main_thread, self.heap@);
            assert(marked(cs0, cs1, seq![c])) by {
                assert forall|x: int| 0 <= x < cs0.len() implies #[trigger] cs1[x] == (Class {
                    initialized: cs0[x].initialized || seq![c].contains(x as usize),
                    ..cs0[x]
                }) by {
                    if x == c {
                        assert(seq![c][0] == c);
                    } else {
                        assert(!seq![c].contains(x as usize));
                    }
                }
            }
        }
        self.schedule_clinit(c);
        let ghost t1 = self.main_thread;
        let ghost own: Seq<usize> = if has_clinit(cs1[c as int]) { seq![c] } else { Seq::empty() };
        let ghost mut rest: Seq<usize> = Seq::empty();
        let ghost mut rest_frames: Seq<usize> = Seq::empty();
        proof {
            lemma_marked_refl(cs1);
            lemma_pushed_refl(cs1, t1);
        }
        if !self.loader.classes[c].is_interface() {
            if let Some(s) = self.loader.classes[c].super_class {
                proof {
                    lemma_init_order_local(cs0, cs1, s as int);
                    rest = init_order(cs0, s as int);
                    rest_frames = init_frames(cs0, s as int);
                }
                self.init_class(s);
            }
        }
        proof {
            assert(init_order(cs0, c as int) =~= seq![c] + rest);
            assert(init_frames(cs0, c as int) =~= own + rest_frames);
            lemma_marked_trans(cs0, cs1, self.loader@, seq![c], rest);
            lemma_pushed_trans(cs0, cs1, t0, t1, self.main_thread, own, rest_frames);
        }
    }
}

} // verus!
