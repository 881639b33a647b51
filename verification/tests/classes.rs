use gdbind::classes::{register_class, run, Gd, GodotExt, VirtualMethodTest, WithoutInit};
use gdbind::decimal::{i64_to_text, u64_to_text};
use gdbind::registry::{
    Base, BaseKind, ClassRegistry, ConstructionError, HookSet, RegistrationError,
};
use gdbind::text::GodotString;

#[test]
fn register_twice_is_rejected() {
    let mut registry = ClassRegistry::new();
    let first = register_class::<VirtualMethodTest>(&mut registry);
    assert_eq!(first, Ok(()));

    let second = register_class::<VirtualMethodTest>(&mut registry);
    assert_eq!(second, Err(RegistrationError::DuplicateClass));
}

#[test]
fn instantiation_requires_constructor() {
    let mut registry = ClassRegistry::new();
    register_class::<WithoutInit>(&mut registry).unwrap();
    register_class::<VirtualMethodTest>(&mut registry).unwrap();

    let missing = registry.instantiate(&GodotString::from_str("Nobody"));
    assert!(matches!(missing, Err(ConstructionError::NotRegistered)));

    let locked = registry.instantiate(&GodotString::from_str("WithoutInit"));
    assert!(matches!(locked, Err(ConstructionError::NoConstructor)));
    assert!(!registry.can_instantiate(&GodotString::from_str("WithoutInit")));

    let made = registry.instantiate(&GodotString::from_str("VirtualMethodTest")).unwrap();
    assert_eq!(made.class_name, GodotString::from_str("VirtualMethodTest"));
    assert_eq!(made.base, Base { kind: BaseKind::RefCounted, refs: 1 });
    assert_eq!(made.hooks, HookSet { to_string: true });
    assert!(made.dispatches_to_string());
    assert!(registry.can_instantiate(&GodotString::from_str("VirtualMethodTest")));
}

#[test]
fn test_to_string() {
    let obj = Gd::<VirtualMethodTest>::new_default();
    assert_eq!(obj.bind().integer, 0);
    assert_eq!(obj.bind().some_base, Base { kind: BaseKind::RefCounted, refs: 1 });

    let rendered = obj.bind().to_string();
    assert_eq!(rendered, GodotString::from_str("VirtualMethodTest[integer=0]"));
}

#[test]
fn to_string_renders_any_field_value() {
    let negative = VirtualMethodTest { some_base: Base::new(BaseKind::RefCounted), integer: -42 };
    assert_eq!(
        negative.to_string(),
        GodotString::from_str("VirtualMethodTest[integer=-42]")
    );

    let extreme = VirtualMethodTest {
        some_base: Base::new(BaseKind::RefCounted),
        integer: i32::MIN,
    };
    assert_eq!(
        extreme.to_string(),
        GodotString::from_str("VirtualMethodTest[integer=-2147483648]")
    );
}

#[test]
fn virtual_method_run() {
    assert!(run());
}

#[test]
fn base_reference_counting() {
    let mut base = Base::new(BaseKind::RefCounted);
    assert_eq!(base.refs, 1);
    base.inc_ref();
    assert_eq!(base.refs, 2);
    assert!(!base.dec_ref());
    assert!(base.dec_ref());
    assert_eq!(base.refs, 0);
}

#[test]
fn decimal_rendering() {
    assert_eq!(u64_to_text(0).as_str(), "0");
    assert_eq!(u64_to_text(10).as_str(), "10");
    assert_eq!(u64_to_text(18446744073709551615).as_str(), "18446744073709551615");
    assert_eq!(i64_to_text(7).as_str(), "7");
    assert_eq!(i64_to_text(-1).as_str(), "-1");
    assert_eq!(i64_to_text(-9223372036854775808).as_str(), "-9223372036854775808");
}
