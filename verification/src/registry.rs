use vstd::prelude::*;
use crate::text::GodotString;

verus! {

/// The native base classes a registered class may declare.
#[derive(Clone, Copy, PartialEq, Eq, Structural, Debug)]
pub enum BaseKind {
    Object,
    RefCounted,
}

/// The embedded native base object of a class instance: exactly one per
/// instance, owned by composition, reference-counted when its kind is.
#[derive(Clone, Copy, PartialEq, Eq, Structural, Debug)]
pub struct Base {
    pub kind: BaseKind,
    pub refs: u64,
}

impl Base {
    /// A freshly initialized base object of the given kind, holding its
    /// first reference.
    pub fn new(kind: BaseKind) -> (b: Base)
        ensures
            b == (Base { kind, refs: 1u64 }),
    {
        Base { kind, refs: 1 }
    }

    /// Adds a reference, as cloning an external handle to the instance does.
    pub fn inc_ref(&mut self)
        requires
            old(self).refs >= 1,
        ensures
            final(self).kind == old(self).kind,
            final(self).refs == if old(self).refs < u64::MAX {
                old(self).refs + 1
            } else {
                old(self).refs as int
            },
    {
        if self.refs < u64::MAX {
            self.refs = self.refs + 1;
        }
    }

    /// Drops a reference; reports whether the last one went away, at which
    /// point a reference-counted instance is to be destroyed.
    pub fn dec_ref(&mut self) -> (freed: bool)
        requires
            old(self).refs >= 1,
        ensures
            final(self).kind == old(self).kind,
            final(self).refs == old(self).refs - 1,
            freed == (final(self).refs == 0),
    {
        self.refs = self.refs - 1;
        self.refs == 0
    }
}

/// The fixed, engine-defined set of virtual hooks a class may override.
#[derive(Clone, Copy, PartialEq, Eq, Structural, Debug)]
pub struct HookSet {
    pub to_string: bool,
}

impl HookSet {
    /// The hook set that overrides nothing: every hook falls back to the
    /// base type's default behavior.
    pub fn none() -> (h: HookSet)
        ensures
            h == (HookSet { to_string: false }),
    {
        HookSet { to_string: false }
    }
}

/// A class declaration handed to registration: the class identity, its
/// declared native base, whether it opts into automatic construction, and
/// the virtual hooks it overrides.
pub struct ClassInfo {
    pub name: GodotString,
    pub base: BaseKind,
    pub has_init: bool,
    pub hooks: HookSet,
}

/// Failure of registration.
#[derive(Clone, Copy, PartialEq, Eq, Structural, Debug)]
pub enum RegistrationError {
    DuplicateClass,
}

/// Failure of the runtime's generic instantiation path.
#[derive(Clone, Copy, PartialEq, Eq, Structural, Debug)]
pub enum ConstructionError {
    NotRegistered,
    NoConstructor,
}

/// An instance created through the runtime's generic instantiation path: the
/// class identity, the initialized embedded base object, and the hook set
/// the runtime dispatches through.
pub struct Instance {
    pub class_name: GodotString,
    pub base: Base,
    pub hooks: HookSet,
}

impl Instance {
    /// Whether the runtime's stringification dispatch reaches an overridden
    /// hook on this instance, rather than the base default.
    pub fn dispatches_to_string(&self) -> (r: bool)
        ensures
            r == self.hooks.to_string,
    {
        self.hooks.to_string
    }
}

/// The registration table the runtime holds: at most one class per identity,
/// built once at module initialization and never unregistered.
pub struct ClassRegistry {
    pub classes: Vec<ClassInfo>,
}

impl ClassRegistry {
    /// Class identities are pairwise distinct.
    pub open spec fn wf(self) -> bool {
        forall|i: int, j: int|
            0 <= i < self.classes@.len() && 0 <= j < self.classes@.len() && i != j ==> (
            #[trigger] self.classes@[i]).name@ != (#[trigger] self.classes@[j]).name@
    }

    /// Whether a class of the given identity is registered.
    pub open spec fn spec_registered(self, name: Seq<char>) -> bool {
        exists|i: int| 0 <= i < self.classes@.len() && (#[trigger] self.classes@[i]).name@ == name
    }

    /// The declaration registered under the identity.
    pub open spec fn spec_class(self, name: Seq<char>) -> ClassInfo {
        self.classes@[choose|i: int|
            0 <= i < self.classes@.len() && (#[trigger] self.classes@[i]).name@ == name]
    }

    /// An empty registry: nothing is registered.
    pub fn new() -> (r: ClassRegistry)
        ensures
            r.wf(),
            r.classes@.len() == 0,
            forall|name: Seq<char>| !r.spec_registered(name),
    {
        ClassRegistry { classes: Vec::new() }
    }

    /// The index of the registered class of this identity, if any.
    fn find(&self, name: &GodotString) -> (r: Option<usize>)
        requires
            self.wf(),
        ensures
            match r {
                Some(i) => i < self.classes@.len() && self.classes@[i as int].name@ == name@
                    && self.spec_registered(name@),
                None => !self.spec_registered(name@),
            },
    {
        let n: usize = self.classes.len();
        let mut i: usize = 0;
        while i < n
            invariant
                n == self.classes@.len(),
                0 <= i <= n,
                forall|j: int| 0 <= j < i ==> (#[trigger] self.classes@[j]).name@ != name@,
            decreases n - i,
        {
            if self.classes[i].name == *name {
                return Some(i);
            }
            i = i + 1;
        }
        None
    }

    /// Whether a class of the given identity is registered.
    pub fn is_registered(&self, name: &GodotString) -> (r: bool)
        requires
            self.wf(),
        ensures
            r == self.spec_registered(name@),
    {
        self.find(name).is_some()
    }

    /// Registers a class declaration, a one-time act per identity: a second
    /// registration under an already registered identity is rejected — never
    /// silently accepted — and leaves the registry unchanged.
    pub fn register(&mut self, decl: ClassInfo) -> (r: Result<(), RegistrationError>)
        requires
            old(self).wf(),
        ensures
            final(self).wf(),
            match r {
                Ok(_) => !old(self).spec_registered(decl.name@)
                    && final(self).classes@ == old(self).classes@.push(decl)
                    && final(self).spec_registered(decl.name@)
                    && final(self).spec_class(decl.name@) == decl,
                Err(e) => e == RegistrationError::DuplicateClass
                    && old(self).spec_registered(decl.name@)
                    && final(self).classes@ == old(self).classes@,
            },
    {
        match self.find(&decl.name) {
            Some(_) => Err(RegistrationError::DuplicateClass),
            None => {
                let ghost pre = self.classes@;
                self.classes.push(decl);
                proof {
                    let k = pre.len() as int;
                    assert(self.classes@[k].name@ == decl.name@);
                    assert(self.spec_registered(decl.name@));
                    assert(self.wf());
                    let w = choose|i: int|
                        0 <= i < self.classes@.len() && (#[trigger] self.classes@[i]).name@
                            == decl.name@;
                    assert(w == k);
                    assert(self.spec_class(decl.name@) == decl);
                }
                Ok(())
            },
        }
    }

    /// Whether the runtime can create an instance of the identity through
    /// its generic instantiation path: registered and opted into automatic
    /// construction.
    pub fn can_instantiate(&self, name: &GodotString) -> (r: bool)
        requires
            self.wf(),
        ensures
            r == (self.spec_registered(name@) && self.spec_class(name@).has_init),
    {
        match self.find(&name) {
            Some(i) => {
                proof {
                    let w = choose|k: int|
                        0 <= k < self.classes@.len() && (#[trigger] self.classes@[k]).name@
                            == name@;
                    assert(w == i as int);
                }
                self.classes[i].has_init
            },
            None => false,
        }
    }

    /// The runtime's generic instantiation path: succeeds exactly for a
    /// registered class that declared a constructor, yielding an instance
    /// whose base object is freshly initialized with the declared kind and
    /// whose declared hooks are reachable by dispatch. A class without a
    /// declared constructor is rejected.
    pub fn instantiate(&self, name: &GodotString) -> (r: Result<Instance, ConstructionError>)
        requires
            self.wf(),
        ensures
            match r {
                Ok(inst) => self.spec_registered(name@) && self.spec_class(name@).has_init
                    && inst.class_name@ == name@ && inst.base == (Base {
                    kind: self.spec_class(name@).base,
                    refs: 1u64,
                }) && inst.hooks == self.spec_class(name@).hooks,
                Err(ConstructionError::NotRegistered) => !self.spec_registered(name@),
                Err(ConstructionError::NoConstructor) => self.spec_registered(name@) && !self
                    .spec_class(name@).has_init,
            },
    {
        match self.find(&name) {
            None => Err(ConstructionError::NotRegistered),
            Some(i) => {
                proof {
                    let w = choose|k: int|
                        0 <= k < self.classes@.len() && (#[trigger] self.classes@[k]).name@
                            == name@;
                    assert(w == i as int);
                }
                if self.classes[i].has_init {
                    Ok(
                        Instance {
                            class_name: self.classes[i].name.clone(),
                            base: Base::new(self.classes[i].base),
                            hooks: self.classes[i].hooks,
                        },
                    )
                } else {
                    Err(ConstructionError::NoConstructor)
                }
            },
        }
    }
}

/// After any successful registration the identity is registered, so a second
/// registration of the same identity can only take the rejected branch of
/// `register`'s contract.
pub proof fn lemma_double_registration(pre: ClassRegistry, post: ClassRegistry, decl: ClassInfo)
    requires
        pre.wf(),
        post.classes@ == pre.classes@.push(decl),
    ensures
        post.spec_registered(decl.name@),
{
    assert(post.classes@[pre.classes@.len() as int].name@ == decl.name@);
}

} // verus!
