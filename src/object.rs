use vstd::prelude::*;

verus! {

/// Counts above this abort the process before they can wrap.
pub const MAX_REFCOUNT: usize = isize::MAX as usize;

/// The control block shared by the strong and weak handles of one
/// loop-affine object: a split strong/weak reference count.
///
/// The weak count holds one extra unit for as long as the strong count is
/// not zero, so the last strong release also releases a weak unit.
pub struct ObjH {
    strong: usize,
    weak: usize,
}

/// What releasing a strong unit asks for.
pub struct Release {
    /// The object itself is to be destroyed: that was the last strong unit.
    pub destroy_node: bool,
    /// The control block is to be freed: no unit of any kind is left.
    pub free_block: bool,
}

/// Where the object is destroyed after a strong handle is dropped.
#[derive(Debug, PartialEq, Eq, Structural, Clone, Copy)]
pub enum DropRoute {
    /// Other strong handles remain: nothing to destroy.
    Keep,
    /// Destroy it now: the drop happens on the owning loop's thread.
    DestroyHere,
    /// Post its destruction to the owning loop.
    PostDestroy,
}

/// `after` and `r` are what releasing a strong unit of `before` gives.
pub open spec fn released(before: ObjH, after: ObjH, r: Release) -> bool {
    &&& after.wf()
    &&& after.strong() == before.strong() - 1
    &&& r.destroy_node == (before.strong() == 1)
    &&& after.weak() == (if r.destroy_node {
        before.weak() - 1
    } else {
        before.weak() as int
    })
    &&& r.free_block == (r.destroy_node && before.weak() == 1)
}

impl ObjH {
    pub closed spec fn strong(&self) -> nat {
        self.strong as nat
    }

    pub closed spec fn weak(&self) -> nat {
        self.weak as nat
    }

    /// A live strong count implies a weak unit for it.
    pub open spec fn wf(&self) -> bool {
        self.strong() > 0 ==> self.weak() >= 1
    }

    /// The control block of a freshly created object: one strong handle.
    pub fn new() -> (r: ObjH)
        ensures
            r.wf(),
            r.strong() == 1,
            r.weak() == 1,
    {
        ObjH { strong: 1, weak: 1 }
    }

    /// The control block behind a weak handle that never had an object.
    pub fn new_weak() -> (r: ObjH)
        ensures
            r.wf(),
            r.strong() == 0,
            r.weak() == 1,
    {
        ObjH { strong: 0, weak: 1 }
    }

    pub fn strong_count(&self) -> (r: usize)
        ensures
            r == self.strong(),
    {
        self.strong
    }

    pub fn weak_count(&self) -> (r: usize)
        ensures
            r == self.weak(),
    {
        self.weak
    }

    /// Adds a strong unit for a clone of a live strong handle.
    pub fn inc_strong(&mut self)
        requires
            old(self).wf(),
            old(self).strong() > 0,
            old(self).strong() <= MAX_REFCOUNT,
        ensures
            final(self).wf(),
            final(self).strong() == old(self).strong() + 1,
            final(self).weak() == old(self).weak(),
    {
        self.strong = self.strong + 1;
    }

    /// Releases a strong unit. The last one destroys the object and gives up
    /// the weak unit it held, which frees the block if it was the last.
    pub fn dec_strong(&mut self) -> (r: Release)
        requires
            old(self).wf(),
            old(self).strong() > 0,
        ensures
            released(*old(self), *final(self), r),
    {
        self.strong = self.strong - 1;
        if self.strong != 0 {
            return Release { destroy_node: false, free_block: false };
        }
        self.weak = self.weak - 1;
        Release { destroy_node: true, free_block: self.weak == 0 }
    }

    /// Adds a weak unit for a clone of a weak handle.
    pub fn inc_weak(&mut self)
        requires
            old(self).wf(),
            old(self).weak() > 0,
            old(self).weak() <= MAX_REFCOUNT,
        ensures
            final(self).wf(),
            final(self).strong() == old(self).strong(),
            final(self).weak() == old(self).weak() + 1,
    {
        self.weak = self.weak + 1;
    }

    /// Releases a weak unit; returns whether the block is to be freed.
    pub fn dec_weak(&mut self) -> (free_block: bool)
        requires
            old(self).wf(),
            old(self).weak() > 0,
            old(self).strong() > 0 ==> old(self).weak() > 1,
        ensures
            final(self).wf(),
            final(self).strong() == old(self).strong(),
            final(self).weak() == old(self).weak() - 1,
            free_block == (final(self).weak() == 0),
    {
        self.weak = self.weak - 1;
        self.weak == 0
    }

    /// Adds a weak unit for a new weak handle made from a strong one.
    pub fn downgrade(&mut self)
        requires
            old(self).wf(),
            old(self).strong() > 0,
            old(self).weak() < MAX_REFCOUNT,
        ensures
            final(self).wf(),
            final(self).strong() == old(self).strong(),
            final(self).weak() == old(self).weak() + 1,
    {
        self.weak = self.weak + 1;
    }

    /// Tries to turn a weak handle into a strong one: this succeeds exactly
    /// when some strong unit is live, and then adds one.
    pub fn upgrade(&mut self) -> (r: bool)
        requires
            old(self).wf(),
            old(self).strong() <= MAX_REFCOUNT,
        ensures
            final(self).wf(),
            r == (old(self).strong() > 0),
            final(self).strong() == (if r {
                old(self).strong() + 1
            } else {
                0
            }),
            final(self).weak() == old(self).weak(),
    {
        if self.strong == 0 {
            return false;
        }
        self.strong = self.strong + 1;
        true
    }
}

/// Where a dropped strong handle's object goes: it is destroyed only when
/// the last strong unit was released, and then always on the owning loop's
/// thread, at once if the drop happens there and by a posted message if not.
pub fn drop_route(release: &Release, on_owner_thread: bool) -> (r: DropRoute)
    ensures
        r == (if !release.destroy_node {
            DropRoute::Keep
        } else if on_owner_thread {
            DropRoute::DestroyHere
        } else {
            DropRoute::PostDestroy
        }),
{
    if !release.destroy_node {
        DropRoute::Keep
    } else if on_owner_thread {
        DropRoute::DestroyHere
    } else {
        DropRoute::PostDestroy
    }
}

/// A release destroys the object exactly when it leaves no strong unit.
/// Since a release needs a strong unit and an upgrade from zero fails and
/// stays at zero, no later release can destroy it again.
pub proof fn lemma_destroyed_once(before: ObjH, after: ObjH, r: Release)
    requires
        before.wf(),
        before.strong() > 0,
        released(before, after, r),
    ensures
        r.destroy_node == (after.strong() == 0),
        r.destroy_node ==> before.strong() == 1,
{
}

/// The loop-affine objects of one loop, by id. A slot is `None` once its
/// object has been taken out to be destroyed.
pub struct ObjectList<T> {
    slots: Vec<Option<T>>,
}

impl<T> View for ObjectList<T> {
    type V = Seq<Option<T>>;

    closed spec fn view(&self) -> Seq<Option<T>> {
        self.slots@
    }
}

impl<T> ObjectList<T> {
    pub fn new() -> (r: ObjectList<T>)
        ensures
            r@ == Seq::<Option<T>>::empty(),
    {
        ObjectList { slots: Vec::new() }
    }

    /// Adds an object; returns its id.
    pub fn create(&mut self, obj: T) -> (id: usize)
        ensures
            id == old(self)@.len(),
            final(self)@ == old(self)@.push(Some(obj)),
    {
        let id = self.slots.len();
        self.slots.push(Some(obj));
        id
    }

    /// Takes object `id` out to be destroyed. Only the first call for an id
    /// yields it.
    pub fn remove(&mut self, id: usize) -> (r: Option<T>)
        requires
            (id as int) < old(self)@.len(),
        ensures
            r == old(self)@[id as int],
            final(self)@ == old(self)@.update(id as int, None),
    {
        let mut r: Option<T> = None;
        self.slots.set_and_swap(id, &mut r);
        r
    }

    /// The live object `id`, if it is still there.
    pub fn get(&self, id: usize) -> (r: Option<&T>)
        ensures
            r == (if (id as int) < self@.len() {
                match self@[id as int] {
                    Some(v) => Some(&v),
                    None => None,
                }
            } else {
                None
            }),
    {
        if id < self.slots.len() {
            self.slots[id].as_ref()
        } else {
            None
        }
    }

    pub fn len(&self) -> (r: usize)
        ensures
            r == self@.len(),
    {
        self.slots.len()
    }
}

} // verus!
