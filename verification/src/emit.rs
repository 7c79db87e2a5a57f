//! The emitter: turns finished interface models into the text of
//! binding declarations.
//!
//! One block is emitted per interface. A block opens with a `foreign`
//! marker — the external-declaration block of the target binding
//! convention — declares an opaque host type named after the
//! interface, then one class-level binding per class member and one
//! method-style binding (taking a reference to the host type) per
//! instance member, each in first-seen order. The whole document is a
//! fixed prelude followed by every block in module order; what comes
//! out is a function of the models alone, so emission is
//! deterministic.

use vstd::prelude::*;

use crate::model::BindingGenerator;
use crate::model::Module;
use crate::model::ModuleView;

verus! {

/// The fixed document prelude: the import of the binding-support
/// runtime the generated declarations target.
pub open spec fn prelude_text() -> Seq<char> {
    "use wasm_bindgen::prelude::*;\n\n"@
}

/// The opening of one interface block: the marker and the opaque host
/// type named after the interface.
pub open spec fn block_header_text(interface: Seq<char>) -> Seq<char> {
    "#[wasm_bindgen]\nforeign {\n    type "@ + interface + ";\n"@
}

/// One class-level binding: a free function associated with the host
/// type, with no declared parameters.
pub open spec fn class_member_text(name: Seq<char>) -> Seq<char> {
    "    pub fn "@ + name + "();\n"@
}

/// One instance-level binding: a method that takes a reference to the
/// host type as its receiver, with no further declared parameters.
pub open spec fn instance_member_text(interface: Seq<char>, name: Seq<char>) -> Seq<char> {
    "    #[wasm_bindgen(method)]\n    pub fn "@ + name + "(this: &"@ + interface + ");\n"@
}

/// The class-level bindings of one block, in first-seen order.
pub open spec fn class_members_text(names: Seq<Seq<char>>) -> Seq<char>
    decreases names.len(),
{
    if names.len() == 0 {
        Seq::empty()
    } else {
        class_members_text(names.drop_last()) + class_member_text(names.last())
    }
}

/// The instance-level bindings of one block, in first-seen order.
pub open spec fn instance_members_text(interface: Seq<char>, names: Seq<Seq<char>>) -> Seq<char>
    decreases names.len(),
{
    if names.len() == 0 {
        Seq::empty()
    } else {
        instance_members_text(interface, names.drop_last()) + instance_member_text(
            interface,
            names.last(),
        )
    }
}

/// The whole block for one interface model.
pub open spec fn module_text(m: ModuleView) -> Seq<char> {
    block_header_text(m.name) + class_members_text(m.class_members) + instance_members_text(
        m.name,
        m.instance_members,
    ) + "}\n"@
}

/// Every block in module order, one blank line after each.
pub open spec fn modules_text(ms: Seq<ModuleView>) -> Seq<char>
    decreases ms.len(),
{
    if ms.len() == 0 {
        Seq::empty()
    } else {
        modules_text(ms.drop_last()) + module_text(ms.last()) + "\n"@
    }
}

/// The whole output document for a finished run.
pub open spec fn bindings_text(ms: Seq<ModuleView>) -> Seq<char> {
    prelude_text() + modules_text(ms)
}

impl Module {
    /// Emits this module's binding-declaration block.
    pub fn to_rust(&self) -> (out: String)
        ensures
            out@ == module_text(self@),
    {
        let mut out = String::new();
        out.append("#[wasm_bindgen]\nforeign {\n    type ");
        out.append(self.name());
        out.append(";\n");
        assert(out@ =~= block_header_text(self@.name));

        let n_class = self.class_member_count();
        let mut i: usize = 0;
        while i < n_class
            invariant
                i <= n_class,
                n_class == self@.class_members.len(),
                out@ == block_header_text(self@.name) + class_members_text(
                    self@.class_members.take(i as int),
                ),
            decreases n_class - i,
        {
            out.append("    pub fn ");
            out.append(self.class_member_at(i));
            out.append("();\n");
            proof {
                let names = self@.class_members;
                assert(names.take(i + 1).drop_last() =~= names.take(i as int));
                assert(names.take(i + 1).last() == names[i as int]);
                assert(out@ =~= block_header_text(self@.name) + class_members_text(
                    names.take(i + 1),
                ));
            }
            i += 1;
        }
        assert(self@.class_members.take(n_class as int) =~= self@.class_members);

        let n_inst = self.instance_member_count();
        let mut j: usize = 0;
        while j < n_inst
            invariant
                j <= n_inst,
                n_inst == self@.instance_members.len(),
                out@ == block_header_text(self@.name) + class_members_text(self@.class_members)
                    + instance_members_text(
                    self@.name,
                    self@.instance_members.take(j as int),
                ),
            decreases n_inst - j,
        {
            out.append("    #[wasm_bindgen(method)]\n    pub fn ");
            out.append(self.instance_member_at(j));
            out.append("(this: &");
            out.append(self.name());
            out.append(");\n");
            proof {
                let names = self@.instance_members;
                assert(names.take(j + 1).drop_last() =~= names.take(j as int));
                assert(names.take(j + 1).last() == names[j as int]);
                assert(out@ =~= block_header_text(self@.name) + class_members_text(
                    self@.class_members,
                ) + instance_members_text(self@.name, names.take(j + 1)));
            }
            j += 1;
        }
        assert(self@.instance_members.take(n_inst as int) =~= self@.instance_members);

        out.append("}\n");
        assert(out@ =~= module_text(self@));
        out
    }
}

impl BindingGenerator {
    /// Emits the whole output document: the prelude followed by one
    /// binding-declaration block per module, in module order.
    pub fn to_rust_module(&self) -> (out: String)
        ensures
            out@ == bindings_text(self@.modules),
    {
        let mut out = String::new();
        out.append("use wasm_bindgen::prelude::*;\n\n");
        assert(out@ =~= prelude_text() + modules_text(self@.modules.take(0)));

        let modules = self.modules();
        let n = modules.len();
        let mut i: usize = 0;
        while i < n
            invariant
                i <= n,
                n == self@.modules.len(),
                crate::model::module_views(modules@) == self@.modules,
                n == modules@.len(),
                out@ == prelude_text() + modules_text(self@.modules.take(i as int)),
            decreases n - i,
        {
            let block = modules[i].to_rust();
            out.append(block.as_str());
            out.append("\n");
            proof {
                let ms = self@.modules;
                assert(modules@[i as int]@ == ms[i as int]);
                assert(ms.take(i + 1).drop_last() =~= ms.take(i as int));
                assert(ms.take(i + 1).last() == ms[i as int]);
                assert(out@ =~= prelude_text() + modules_text(ms.take(i + 1)));
            }
            i += 1;
        }
        assert(self@.modules.take(n as int) =~= self@.modules);
        out
    }
}

} // verus!
