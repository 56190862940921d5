use pyattrs::error::PyError;
use pyattrs::super_lookup::{super_get, Base, BaseKind, Binding, Found, ObjFacts, Slot, SuperOutcome};

fn slot(name: &str, binding: Binding, value: u64) -> Slot {
    Slot { name: name.to_string(), binding, value }
}

fn class(id: u64, slots: Vec<Slot>) -> Base {
    Base { id, kind: BaseKind::Type { slots } }
}

fn plain_instance() -> ObjFacts {
    ObjFacts { is_instance: true, has_native_base: false, has_native_backing: false, native_has_attr: false }
}

fn mro() -> Vec<Base> {
    vec![
        class(1, vec![slot("f", Binding::Function, 100)]),
        class(2, vec![slot("g", Binding::Plain, 200)]),
        class(3, vec![
            slot("f", Binding::Function, 300),
            slot("__new__", Binding::Function, 301),
            slot("m", Binding::BuiltinMethod, 302),
            slot("p", Binding::Property { has_getter: true }, 303),
            slot("q", Binding::Property { has_getter: false }, 304),
            slot("s", Binding::StaticMethod { func: 305 }, 306),
            slot("c", Binding::ClassMethod { func: 307 }, 308),
        ]),
    ]
}

#[test]
fn walk_starts_after_cls() {
    let mros = vec![mro()];
    assert_eq!(super_get(&mros, 1, "f", &plain_instance()), SuperOutcome::Found(Found::BoundToObj(300)));
    assert_eq!(super_get(&mros, 1, "g", &plain_instance()), SuperOutcome::Found(Found::Value(200)));
    assert_eq!(
        super_get(&mros, 3, "f", &plain_instance()),
        SuperOutcome::Error(PyError::AttributeError("'super' object has no attribute 'f'".to_string()))
    );
}

#[test]
fn bindings_are_presented_by_kind() {
    let mros = vec![mro()];
    let f = plain_instance();
    assert_eq!(super_get(&mros, 2, "__new__", &f), SuperOutcome::Found(Found::Value(301)));
    assert_eq!(super_get(&mros, 2, "m", &f), SuperOutcome::Found(Found::RebindBuiltin(302)));
    assert_eq!(super_get(&mros, 2, "p", &f), SuperOutcome::Found(Found::CallGetter(303)));
    assert_eq!(super_get(&mros, 2, "q", &f), SuperOutcome::Found(Found::Value(304)));
    assert_eq!(super_get(&mros, 2, "s", &f), SuperOutcome::Found(Found::Value(305)));
    assert_eq!(super_get(&mros, 2, "c", &f), SuperOutcome::Found(Found::ClassBound(307)));
}

#[test]
fn cls_missing_from_order_finds_nothing() {
    let mros = vec![mro()];
    assert_eq!(
        super_get(&mros, 9, "g", &plain_instance()),
        SuperOutcome::Error(PyError::AttributeError("'super' object has no attribute 'g'".to_string()))
    );
}

#[test]
fn second_order_is_tried() {
    let mros = vec![vec![class(5, vec![])], mro()];
    assert_eq!(super_get(&mros, 1, "g", &plain_instance()), SuperOutcome::Found(Found::Value(200)));
}

#[test]
fn builtin_exception_base_answers_init() {
    let mros = vec![vec![class(1, vec![]), Base { id: 2, kind: BaseKind::BuiltinException }]];
    assert_eq!(super_get(&mros, 1, "__init__", &plain_instance()), SuperOutcome::Found(Found::ExceptionInit));
}

#[test]
fn fallbacks_after_the_walk() {
    let mros: Vec<Vec<Base>> = vec![];
    let not_instance = ObjFacts { is_instance: false, has_native_base: true, has_native_backing: true, native_has_attr: true };
    assert_eq!(
        super_get(&mros, 1, "__init__", &not_instance),
        SuperOutcome::Error(PyError::AttributeError("'super' object has no attribute '__init__'".to_string()))
    );
    let native = ObjFacts { is_instance: true, has_native_base: true, has_native_backing: true, native_has_attr: false };
    assert_eq!(super_get(&mros, 1, "__init__", &native), SuperOutcome::NativeInit);
    assert_eq!(super_get(&mros, 1, "__setattr__", &native), SuperOutcome::AttrProxy { delete: false });
    assert_eq!(super_get(&mros, 1, "__delattr__", &native), SuperOutcome::AttrProxy { delete: true });
    assert_eq!(super_get(&mros, 1, "__len__", &native), SuperOutcome::NativeProtocol);
    assert_eq!(
        super_get(&mros, 1, "keys", &native),
        SuperOutcome::Error(PyError::AttributeError("'super' object has no attribute 'keys'".to_string()))
    );
    let with_attr = ObjFacts { native_has_attr: true, ..native };
    assert_eq!(super_get(&mros, 1, "keys", &with_attr), SuperOutcome::NativeAttr);
}
