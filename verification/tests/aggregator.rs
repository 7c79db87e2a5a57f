use webidl_bindgen::model::AggregateError;
use webidl_bindgen::model::BindingGenerator;
use webidl_bindgen::model::Member;
use webidl_bindgen::model::Module;

#[test]
fn member_holds_its_name() {
    let m = Member::new("alert");
    assert_eq!(m.name(), "alert");
}

#[test]
fn new_module_is_empty() {
    let m = Module::new("Window");
    assert_eq!(m.name(), "Window");
    assert_eq!(m.class_member_count(), 0);
    assert_eq!(m.instance_member_count(), 0);
}

#[test]
fn instance_insertion_is_idempotent() {
    let mut m = Module::new("Window");
    m.add_instance_member("alert");
    m.add_instance_member("close");
    m.add_instance_member("alert");
    assert_eq!(m.instance_member_names(), vec!["alert", "close"]);
    assert_eq!(m.instance_member_count(), 2);
    assert_eq!(m.class_member_count(), 0);
}

#[test]
fn class_insertion_is_idempotent() {
    let mut m = Module::new("Factory");
    m.add_class_member("create");
    m.add_class_member("create");
    assert_eq!(m.class_member_names(), vec!["create"]);
    assert_eq!(m.class_member_count(), 1);
}

#[test]
fn full_interface_creates_and_activates() {
    let mut g = BindingGenerator::new();
    assert!(g.current_module().is_none());
    assert_eq!(g.on_full_interface("Window"), Ok(()));
    let active = g.current_module().expect("an interface should be active");
    assert_eq!(active.name(), "Window");
    assert_eq!(g.modules().len(), 1);
}

#[test]
fn duplicate_full_interface_is_rejected() {
    let mut g = BindingGenerator::new();
    assert_eq!(g.on_full_interface("Window"), Ok(()));
    assert_eq!(
        g.on_full_interface("Window"),
        Err(AggregateError::DuplicateInterface)
    );
}

#[test]
fn duplicate_full_interface_is_rejected_after_other_events() {
    let mut g = BindingGenerator::new();
    assert_eq!(g.on_full_interface("Window"), Ok(()));
    assert_eq!(g.on_regular_operation("alert"), Ok(()));
    assert_eq!(g.on_full_interface("Document"), Ok(()));
    assert_eq!(g.on_static_operation("create"), Ok(()));
    assert_eq!(g.on_partial_interface("Window"), Ok(()));
    assert_eq!(
        g.on_full_interface("Window"),
        Err(AggregateError::DuplicateInterface)
    );
    // The rejected event left the state alone.
    assert_eq!(g.modules().len(), 2);
    assert_eq!(g.current_module().unwrap().name(), "Window");
}

#[test]
fn partial_interface_without_full_is_rejected() {
    let mut g = BindingGenerator::new();
    assert_eq!(
        g.on_partial_interface("Ghost"),
        Err(AggregateError::UnknownPartialInterface)
    );
    assert_eq!(g.modules().len(), 0);
    assert!(g.current_module().is_none());
}

#[test]
fn partial_interface_extends_existing_module() {
    let mut g = BindingGenerator::new();
    assert_eq!(g.on_full_interface("Window"), Ok(()));
    assert_eq!(g.on_regular_operation("alert"), Ok(()));
    assert_eq!(g.on_regular_operation("close"), Ok(()));
    assert_eq!(g.on_partial_interface("Window"), Ok(()));
    assert_eq!(g.on_regular_operation("alert"), Ok(()));
    assert_eq!(g.on_regular_operation("moveTo"), Ok(()));
    assert_eq!(g.modules().len(), 1);
    let m = &g.modules()[0];
    assert_eq!(m.instance_member_names(), vec!["alert", "close", "moveTo"]);
    assert_eq!(m.class_member_count(), 0);
}

#[test]
fn partial_interface_switches_the_active_module() {
    let mut g = BindingGenerator::new();
    assert_eq!(g.on_full_interface("Window"), Ok(()));
    assert_eq!(g.on_full_interface("Document"), Ok(()));
    assert_eq!(g.on_partial_interface("Window"), Ok(()));
    assert_eq!(g.on_regular_operation("close"), Ok(()));
    let window = &g.modules()[0];
    let document = &g.modules()[1];
    assert_eq!(window.instance_member_names(), vec!["close"]);
    assert_eq!(document.instance_member_count(), 0);
}

#[test]
fn callback_interface_is_unsupported() {
    let mut g = BindingGenerator::new();
    assert_eq!(
        g.on_callback_interface("EventListener"),
        Err(AggregateError::UnsupportedInterfaceKind)
    );
    assert_eq!(g.modules().len(), 0);
}

#[test]
fn operation_without_active_interface_is_rejected() {
    let mut g = BindingGenerator::new();
    assert_eq!(
        g.on_regular_operation("alert"),
        Err(AggregateError::MissingActiveInterface)
    );
    assert_eq!(
        g.on_static_operation("create"),
        Err(AggregateError::MissingActiveInterface)
    );
}

#[test]
fn unnamed_operation_is_rejected() {
    let mut g = BindingGenerator::new();
    assert_eq!(g.on_full_interface("Window"), Ok(()));
    assert_eq!(
        g.on_regular_operation(""),
        Err(AggregateError::UnnamedOperation)
    );
    assert_eq!(
        g.on_static_operation(""),
        Err(AggregateError::UnnamedOperation)
    );
    assert_eq!(g.modules()[0].instance_member_count(), 0);
    assert_eq!(g.modules()[0].class_member_count(), 0);
}

#[test]
fn special_and_stringifier_operations_are_not_lowered() {
    let mut g = BindingGenerator::new();
    assert_eq!(g.on_full_interface("Window"), Ok(()));
    assert_eq!(g.on_special_operation(), Ok(()));
    assert_eq!(g.on_stringifier_operation(), Ok(()));
    let m = &g.modules()[0];
    assert_eq!(m.class_member_count(), 0);
    assert_eq!(m.instance_member_count(), 0);
}

#[test]
fn static_operation_goes_to_the_class_set() {
    let mut g = BindingGenerator::new();
    assert_eq!(g.on_full_interface("Factory"), Ok(()));
    assert_eq!(g.on_static_operation("create"), Ok(()));
    let m = &g.modules()[0];
    assert_eq!(m.class_member_names(), vec!["create"]);
    assert_eq!(m.instance_member_count(), 0);
}

#[test]
fn default_generator_is_empty() {
    let g = BindingGenerator::default();
    assert_eq!(g.modules().len(), 0);
    assert!(g.current_module().is_none());
}
