use webidl_bindgen::model::BindingGenerator;
use webidl_bindgen::model::Module;

#[test]
fn empty_module_block() {
    let m = Module::new("Window");
    assert_eq!(
        m.to_rust(),
        "#[wasm_bindgen]\nforeign {\n    type Window;\n}\n"
    );
}

#[test]
fn instance_members_become_method_bindings() {
    let mut m = Module::new("Window");
    m.add_instance_member("alert");
    m.add_instance_member("close");
    assert_eq!(
        m.to_rust(),
        "#[wasm_bindgen]\nforeign {\n    type Window;\n    #[wasm_bindgen(method)]\n    pub fn alert(this: &Window);\n    #[wasm_bindgen(method)]\n    pub fn close(this: &Window);\n}\n"
    );
}

#[test]
fn static_operation_block_has_no_instance_binding() {
    let mut g = BindingGenerator::new();
    assert_eq!(g.on_full_interface("Factory"), Ok(()));
    assert_eq!(g.on_static_operation("create"), Ok(()));
    let block = g.modules()[0].to_rust();
    assert!(block.contains("type Factory;"));
    assert!(block.contains("    pub fn create();\n"));
    assert!(!block.contains("this: &Factory"));
    assert!(!block.contains("#[wasm_bindgen(method)]"));
}

#[test]
fn class_members_come_before_instance_members() {
    let mut m = Module::new("Factory");
    m.add_instance_member("refresh");
    m.add_class_member("create");
    assert_eq!(
        m.to_rust(),
        "#[wasm_bindgen]\nforeign {\n    type Factory;\n    pub fn create();\n    #[wasm_bindgen(method)]\n    pub fn refresh(this: &Factory);\n}\n"
    );
}

#[test]
fn empty_generator_emits_only_the_prelude() {
    let g = BindingGenerator::new();
    assert_eq!(g.to_rust_module(), "use wasm_bindgen::prelude::*;\n\n");
}

#[test]
fn whole_document_layout() {
    let mut g = BindingGenerator::new();
    assert_eq!(g.on_full_interface("Window"), Ok(()));
    assert_eq!(g.on_regular_operation("alert"), Ok(()));
    assert_eq!(g.on_full_interface("Factory"), Ok(()));
    assert_eq!(g.on_static_operation("create"), Ok(()));
    assert_eq!(
        g.to_rust_module(),
        "use wasm_bindgen::prelude::*;\n\n#[wasm_bindgen]\nforeign {\n    type Window;\n    #[wasm_bindgen(method)]\n    pub fn alert(this: &Window);\n}\n\n#[wasm_bindgen]\nforeign {\n    type Factory;\n    pub fn create();\n}\n\n"
    );
}

#[test]
fn emission_is_deterministic() {
    let mut g = BindingGenerator::new();
    assert_eq!(g.on_full_interface("Window"), Ok(()));
    assert_eq!(g.on_regular_operation("alert"), Ok(()));
    assert_eq!(g.on_partial_interface("Window"), Ok(()));
    assert_eq!(g.on_regular_operation("moveTo"), Ok(()));
    assert_eq!(g.on_static_operation("create"), Ok(()));
    let first = g.to_rust_module();
    let second = g.to_rust_module();
    assert_eq!(first, second);
    let third = g.modules()[0].to_rust();
    let fourth = g.modules()[0].to_rust();
    assert_eq!(third, fourth);
}

#[test]
fn merged_interface_emits_in_first_seen_order() {
    let mut g = BindingGenerator::new();
    assert_eq!(g.on_full_interface("Window"), Ok(()));
    assert_eq!(g.on_regular_operation("alert"), Ok(()));
    assert_eq!(g.on_regular_operation("close"), Ok(()));
    assert_eq!(g.on_partial_interface("Window"), Ok(()));
    assert_eq!(g.on_regular_operation("alert"), Ok(()));
    assert_eq!(g.on_regular_operation("moveTo"), Ok(()));
    let block = g.modules()[0].to_rust();
    let alert = block.find("fn alert").unwrap();
    let close = block.find("fn close").unwrap();
    let move_to = block.find("fn moveTo").unwrap();
    assert!(alert < close && close < move_to);
    // The duplicate contribution did not produce a second binding.
    assert_eq!(block.matches("fn alert").count(), 1);
}
