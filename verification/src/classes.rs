use vstd::prelude::*;
use vstd::string::StringExecFns;
use crate::decimal::{i64_to_text, spec_int_text};
use crate::registry::{Base, BaseKind, ClassInfo, ClassRegistry, HookSet, RegistrationError};
use crate::text::GodotString;

verus! {

/// Identity of a host type registered as an engine class: its class name,
/// declared native base, and what it declares to the runtime.
pub trait GodotClass {
    /// The class identity.
    spec fn spec_class_name() -> Seq<char>;

    /// The declared native base kind.
    spec fn spec_base_kind() -> BaseKind;

    /// Whether the class opts into automatic construction.
    spec fn spec_has_init() -> bool;

    /// The virtual hooks the class overrides.
    spec fn spec_hooks() -> HookSet;

    /// The class name as a text value.
    fn class_name() -> (r: GodotString)
        ensures
            r@ == Self::spec_class_name(),
    ;

    /// The declared native base kind.
    fn base_kind() -> (k: BaseKind)
        ensures
            k == Self::spec_base_kind(),
    ;

    /// The declaration handed to registration at module initialization.
    fn class_decl() -> (d: ClassInfo)
        ensures
            d.name@ == Self::spec_class_name(),
            d.base == Self::spec_base_kind(),
            d.has_init == Self::spec_has_init(),
            d.hooks == Self::spec_hooks(),
    ;
}

/// The automatic-construction capability: the runtime may create an instance
/// with the base object initialized and the data fields at their defaults.
/// A class without this capability cannot be created through the generic
/// instantiation path; only host-internal code can construct it.
pub trait GodotInit: GodotClass + Sized {
    /// The default instance around a given base object.
    spec fn spec_init(base: Base) -> Self;

    /// Constructs the default instance embedding the given base object.
    fn init(base: Base) -> (r: Self)
        ensures
            r == Self::spec_init(base),
    ;
}

/// The engine's virtual hook surface: a class supplies implementations for
/// the hooks it declares, and the runtime invokes them through dispatch in
/// place of the base default.
pub trait GodotExt: GodotClass {
    /// Content of the stringification hook's result.
    spec fn spec_to_string(&self) -> Seq<char>;

    /// The stringification hook: describes the instance as a text value.
    fn to_string(&self) -> (r: GodotString)
        ensures
            r@ == self.spec_to_string(),
    ;
}

/// Registers a class's declaration with the runtime's registry, as the
/// module-initialization entry point does once per class.
pub fn register_class<T: GodotClass>(registry: &mut ClassRegistry) -> (r: Result<
    (),
    RegistrationError,
>)
    requires
        old(registry).wf(),
    ensures
        final(registry).wf(),
        r is Ok ==> !old(registry).spec_registered(T::spec_class_name())
            && final(registry).spec_registered(T::spec_class_name())
            && final(registry).spec_class(T::spec_class_name()).base == T::spec_base_kind()
            && final(registry).spec_class(T::spec_class_name()).has_init == T::spec_has_init()
            && final(registry).spec_class(T::spec_class_name()).hooks == T::spec_hooks(),
        r is Err ==> old(registry).spec_registered(T::spec_class_name())
            && final(registry).classes@ == old(registry).classes@,
{
    registry.register(T::class_decl())
}

/// A host-side reference to an instance of class `T`.
pub struct Gd<T> {
    pub obj: T,
}

impl<T: GodotInit> Gd<T> {
    /// Creates a default instance through the construction path the class
    /// opted into: the base object freshly initialized with the declared
    /// kind, the data fields at their defaults.
    pub fn new_default() -> (g: Gd<T>)
        ensures
            g.obj == T::spec_init(Base { kind: T::spec_base_kind(), refs: 1u64 }),
    {
        Gd { obj: T::init(Base::new(T::base_kind())) }
    }
}

impl<T> Gd<T> {
    /// Borrows the underlying instance.
    pub fn bind(&self) -> (r: &T)
        ensures
            *r == self.obj,
    {
        &self.obj
    }
}

/// A class that deliberately declares no constructor accessible to the
/// runtime: the generic instantiation path must reject it.
#[derive(Debug)]
pub struct WithoutInit {
    pub some_base: Base,
}

impl GodotClass for WithoutInit {
    open spec fn spec_class_name() -> Seq<char> {
        "WithoutInit"@
    }

    open spec fn spec_base_kind() -> BaseKind {
        BaseKind::RefCounted
    }

    open spec fn spec_has_init() -> bool {
        false
    }

    open spec fn spec_hooks() -> HookSet {
        HookSet { to_string: false }
    }

    fn class_name() -> (r: GodotString) {
        GodotString::from_str("WithoutInit")
    }

    fn base_kind() -> (k: BaseKind) {
        BaseKind::RefCounted
    }

    fn class_decl() -> (d: ClassInfo) {
        ClassInfo {
            name: GodotString::from_str("WithoutInit"),
            base: BaseKind::RefCounted,
            has_init: false,
            hooks: HookSet { to_string: false },
        }
    }
}

/// A class with automatic construction, one data field, and an overridden
/// stringification hook that renders that field.
#[derive(Debug)]
pub struct VirtualMethodTest {
    pub some_base: Base,
    pub integer: i32,
}

impl GodotClass for VirtualMethodTest {
    open spec fn spec_class_name() -> Seq<char> {
        "VirtualMethodTest"@
    }

    open spec fn spec_base_kind() -> BaseKind {
        BaseKind::RefCounted
    }

    open spec fn spec_has_init() -> bool {
        true
    }

    open spec fn spec_hooks() -> HookSet {
        HookSet { to_string: true }
    }

    fn class_name() -> (r: GodotString) {
        GodotString::from_str("VirtualMethodTest")
    }

    fn base_kind() -> (k: BaseKind) {
        BaseKind::RefCounted
    }

    fn class_decl() -> (d: ClassInfo) {
        ClassInfo {
            name: GodotString::from_str("VirtualMethodTest"),
            base: BaseKind::RefCounted,
            has_init: true,
            hooks: HookSet { to_string: true },
        }
    }
}

impl GodotInit for VirtualMethodTest {
    open spec fn spec_init(base: Base) -> Self {
        VirtualMethodTest { some_base: base, integer: 0 }
    }

    fn init(base: Base) -> (r: Self) {
        VirtualMethodTest { some_base: base, integer: 0 }
    }
}

impl GodotExt for VirtualMethodTest {
    open spec fn spec_to_string(&self) -> Seq<char> {
        "VirtualMethodTest[integer="@ + spec_int_text(self.integer as int) + "]"@
    }

    fn to_string(&self) -> (r: GodotString) {
        let mut s: String = String::from_str("VirtualMethodTest[integer=");
        let digits: String = i64_to_text(self.integer as i64);
        s.append(digits.as_str());
        s.append("]");
        proof {
            assert(s@ =~= self.spec_to_string());
        }
        GodotString { text: s }
    }
}

/// Runs the end-to-end check of the construction and dispatch path: the
/// stringification hook of a default instance must render the
/// zero-initialized field, so the check always passes.
pub fn run() -> (ok: bool)
    ensures
        ok,
{
    let obj: Gd<VirtualMethodTest> = Gd::<VirtualMethodTest>::new_default();
    let rendered: GodotString = obj.bind().to_string();
    let expected: GodotString = GodotString::from_str("VirtualMethodTest[integer=0]");
    proof {
        reveal_strlit("VirtualMethodTest[integer=");
        reveal_strlit("VirtualMethodTest[integer=0]");
        reveal_strlit("]");
        assert(spec_int_text(0) =~= seq!['0']);
        assert(rendered@ =~= expected@);
    }
    rendered == expected
}

} // verus!
