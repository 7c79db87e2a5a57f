//! The aggregation model: members, per-interface models, and the
//! generator state that folds declaration events into them.

use vstd::prelude::*;

verus! {

/// The ways an aggregation run can fail. Every failure is fatal to the
/// run: the caller is expected to stop feeding events.
#[derive(Debug, Clone, Copy, PartialEq, Eq, Structural)]
pub enum AggregateError {
    /// A full interface declaration reused a name that is already taken.
    DuplicateInterface,
    /// A partial interface declaration named an interface that no full
    /// interface declaration has introduced.
    UnknownPartialInterface,
    /// A callback interface was encountered; those have no host object
    /// to bind against and are deliberately not supported.
    UnsupportedInterfaceKind,
    /// An operation event arrived while no interface was active.
    MissingActiveInterface,
    /// An operation event carried no usable name.
    UnnamedOperation,
}

/// A member in an interface definition: one exposed operation,
/// identified by its name alone.
#[derive(Debug, Clone, PartialEq, Eq, Hash)]
pub struct Member {
    name: String,
}

impl View for Member {
    type V = Seq<char>;

    closed spec fn view(&self) -> Seq<char> {
        self.name@
    }
}

impl Member {
    /// Builds a member for the operation called `name`.
    pub fn new(name: &str) -> (m: Member)
        ensures
            m@ == name@,
    {
        Member { name: String::from_str(name) }
    }

    /// The operation name this member stands for.
    pub fn name(&self) -> (r: &str)
        ensures
            r@ == self@,
    {
        self.name.as_str()
    }
}

/// The names of a sequence of members, in order.
pub open spec fn member_names(s: Seq<Member>) -> Seq<Seq<char>> {
    s.map_values(|m: Member| m@)
}

/// Holds when no name occurs twice in `s`.
pub open spec fn distinct_names(s: Seq<Seq<char>>) -> bool {
    forall|i: int, j: int| 0 <= i < j < s.len() ==> s[i] != s[j]
}

/// Holds when every name in `s` is non-empty.
pub open spec fn all_named(s: Seq<Seq<char>>) -> bool {
    forall|i: int| 0 <= i < s.len() ==> s[i].len() > 0
}

/// Idempotent insertion: appends `x` to `s` unless it is already
/// present, in which case `s` is returned unchanged.
pub open spec fn push_unique(s: Seq<Seq<char>>, x: Seq<char>) -> Seq<Seq<char>> {
    if s.contains(x) {
        s
    } else {
        s.push(x)
    }
}

/// The mathematical value of a `Module`: its interface name and the
/// names of its class-level and instance-level members, each in
/// first-seen order.
#[verifier::ext_equal]
pub ghost struct ModuleView {
    pub name: Seq<char>,
    pub class_members: Seq<Seq<char>>,
    pub instance_members: Seq<Seq<char>>,
}

impl ModuleView {
    /// The model of a freshly created module: no members yet.
    pub open spec fn empty(name: Seq<char>) -> ModuleView {
        ModuleView { name: name, class_members: Seq::empty(), instance_members: Seq::empty() }
    }

    /// Well-formedness: both member lists are duplicate-free and every
    /// member name is non-empty.
    pub open spec fn wf(self) -> bool {
        &&& distinct_names(self.class_members)
        &&& all_named(self.class_members)
        &&& distinct_names(self.instance_members)
        &&& all_named(self.instance_members)
    }
}

/// The accumulated, de-duplicated contract for one WebIDL interface.
///
/// A module is created from a full interface declaration and grows as
/// partial interface declarations for the same name contribute further
/// operations. Class members come from static operations, instance
/// members from regular operations; within each list, members keep the
/// order in which their names were first seen.
#[derive(Debug, Clone, PartialEq, Eq, Hash)]
pub struct Module {
    name: String,
    class_members: Vec<Member>,
    instance_members: Vec<Member>,
}

impl View for Module {
    type V = ModuleView;

    closed spec fn view(&self) -> ModuleView {
        ModuleView {
            name: self.name@,
            class_members: member_names(self.class_members@),
            instance_members: member_names(self.instance_members@),
        }
    }
}

/// Whether some member of `members` is named `name`.
fn contains_member(members: &Vec<Member>, name: &String) -> (b: bool)
    ensures
        b == member_names(members@).contains(name@),
{
    let mut i: usize = 0;
    while i < members.len()
        invariant
            i <= members@.len(),
            forall|k: int| 0 <= k < i ==> member_names(members@)[k] != name@,
        decreases members@.len() - i,
    {
        if members[i].name == *name {
            assert(member_names(members@)[i as int] == name@);
            return true;
        }
        i += 1;
    }
    assert(!member_names(members@).contains(name@));
    false
}

impl Module {
    /// Builds the empty module for the interface called `name`.
    pub fn new(name: &str) -> (m: Module)
        ensures
            m@ == ModuleView::empty(name@),
            m@.wf(),
    {
        let m = Module {
            name: String::from_str(name),
            class_members: Vec::new(),
            instance_members: Vec::new(),
        };
        assert(m@.class_members =~= Seq::<Seq<char>>::empty());
        assert(m@.instance_members =~= Seq::<Seq<char>>::empty());
        m
    }

    /// The name of the interface this module was created for.
    pub fn name(&self) -> (r: &str)
        ensures
            r@ == self@.name,
    {
        self.name.as_str()
    }

    /// Adds an instance member (a regular operation) called `name`.
    /// Insertion is idempotent: a name already present leaves the
    /// module unchanged.
    pub fn add_instance_member(&mut self, name: &str)
        requires
            name@.len() > 0,
        ensures
            final(self)@ == (ModuleView {
                instance_members: push_unique(old(self)@.instance_members, name@),
                ..old(self)@
            }),
            old(self)@.wf() ==> final(self)@.wf(),
    {
        let owned = String::from_str(name);
        if !contains_member(&self.instance_members, &owned) {
            let ghost before = self@;
            self.instance_members.push(Member { name: owned });
            assert(self@.instance_members =~= before.instance_members.push(name@));
        }
    }

    /// Adds a class member (a static operation) called `name`.
    /// Insertion is idempotent: a name already present leaves the
    /// module unchanged.
    pub fn add_class_member(&mut self, name: &str)
        requires
            name@.len() > 0,
        ensures
            final(self)@ == (ModuleView {
                class_members: push_unique(old(self)@.class_members, name@),
                ..old(self)@
            }),
            old(self)@.wf() ==> final(self)@.wf(),
    {
        let owned = String::from_str(name);
        if !contains_member(&self.class_members, &owned) {
            let ghost before = self@;
            self.class_members.push(Member { name: owned });
            assert(self@.class_members =~= before.class_members.push(name@));
        }
    }

    /// How many class members the module has.
    pub fn class_member_count(&self) -> (n: usize)
        ensures
            n == self@.class_members.len(),
    {
        self.class_members.len()
    }

    /// The name of the class member at position `i`.
    pub fn class_member_at(&self, i: usize) -> (r: &str)
        requires
            i < self@.class_members.len(),
        ensures
            r@ == self@.class_members[i as int],
    {
        self.class_members[i].name()
    }

    /// How many instance members the module has.
    pub fn instance_member_count(&self) -> (n: usize)
        ensures
            n == self@.instance_members.len(),
    {
        self.instance_members.len()
    }

    /// The name of the instance member at position `i`.
    pub fn instance_member_at(&self, i: usize) -> (r: &str)
        requires
            i < self@.instance_members.len(),
        ensures
            r@ == self@.instance_members[i as int],
    {
        self.instance_members[i].name()
    }

    /// The member names of the class-level set, in first-seen order.
    pub fn class_member_names(&self) -> (r: Vec<String>)
        ensures
            r@.map_values(|s: String| s@) =~= self@.class_members,
    {
        member_name_vec(&self.class_members)
    }

    /// The member names of the instance-level set, in first-seen order.
    pub fn instance_member_names(&self) -> (r: Vec<String>)
        ensures
            r@.map_values(|s: String| s@) =~= self@.instance_members,
    {
        member_name_vec(&self.instance_members)
    }
}

/// The models of a sequence of modules, in order.
pub open spec fn module_views(s: Seq<Module>) -> Seq<ModuleView> {
    s.map_values(|m: Module| m@)
}

/// Holds when no two modules in `ms` are for the same interface name.
pub open spec fn distinct_module_names(ms: Seq<ModuleView>) -> bool {
    forall|i: int, j: int| 0 <= i < j < ms.len() ==> ms[i].name != ms[j].name
}

/// Whether some module in `ms` is for the interface called `name`.
pub open spec fn has_module(ms: Seq<ModuleView>, name: Seq<char>) -> bool {
    exists|i: int| 0 <= i < ms.len() && ms[i].name == name
}

/// The position of the module for `name` in `ms`. Meaningful only when
/// `has_module(ms, name)` holds and module names are distinct.
pub open spec fn module_index(ms: Seq<ModuleView>, name: Seq<char>) -> int {
    choose|i: int| 0 <= i < ms.len() && ms[i].name == name
}

/// The mathematical value of a `BindingGenerator`: the models built so
/// far, in creation order, and the name of the interface that operation
/// events currently belong to (if any).
#[verifier::ext_equal]
pub ghost struct GeneratorView {
    pub modules: Seq<ModuleView>,
    pub active: Option<Seq<char>>,
}

impl GeneratorView {
    /// The model of a generator that has seen no event yet.
    pub open spec fn empty() -> GeneratorView {
        GeneratorView { modules: Seq::empty(), active: None }
    }

    /// Well-formedness: interface names are unique, every module is
    /// well formed, and the active name (if set) belongs to a module.
    pub open spec fn wf(self) -> bool {
        &&& distinct_module_names(self.modules)
        &&& forall|i: int| 0 <= i < self.modules.len() ==> (#[trigger] self.modules[i]).wf()
        &&& self.active is Some ==> has_module(self.modules, self.active->0)
    }
}

/// One interface or operation declaration event, as the traversal of a
/// WebIDL document delivers them in document order.
pub ghost enum EventView {
    FullInterface(Seq<char>),
    PartialInterface(Seq<char>),
    CallbackInterface(Seq<char>),
    RegularOperation(Seq<char>),
    StaticOperation(Seq<char>),
    SpecialOperation,
    StringifierOperation,
}

/// `m` with `name` inserted into its class-member list (when
/// `is_static` holds) or its instance-member list (otherwise).
pub open spec fn add_member(m: ModuleView, name: Seq<char>, is_static: bool) -> ModuleView {
    if is_static {
        ModuleView { class_members: push_unique(m.class_members, name), ..m }
    } else {
        ModuleView { instance_members: push_unique(m.instance_members, name), ..m }
    }
}

/// The effect of one operation event on the generator: the next state
/// and the error, if the event is rejected.
pub open spec fn step_operation(g: GeneratorView, name: Seq<char>, is_static: bool) -> (
    GeneratorView,
    Option<AggregateError>,
) {
    if name.len() == 0 {
        (g, Some(AggregateError::UnnamedOperation))
    } else {
        match g.active {
            None => (g, Some(AggregateError::MissingActiveInterface)),
            Some(act) => {
                let i = module_index(g.modules, act);
                (
                    GeneratorView {
                        modules: g.modules.update(i, add_member(g.modules[i], name, is_static)),
                        ..g
                    },
                    None,
                )
            },
        }
    }
}

/// The transition relation of the aggregator: the state after one event
/// and the error that event raises, if any. A rejected event leaves the
/// state unchanged.
pub open spec fn step(g: GeneratorView, e: EventView) -> (GeneratorView, Option<AggregateError>) {
    match e {
        EventView::FullInterface(n) => {
            if has_module(g.modules, n) {
                (g, Some(AggregateError::DuplicateInterface))
            } else {
                (
                    GeneratorView { modules: g.modules.push(ModuleView::empty(n)), active: Some(n) },
                    None,
                )
            }
        },
        EventView::PartialInterface(n) => {
            if has_module(g.modules, n) {
                (GeneratorView { active: Some(n), ..g }, None)
            } else {
                (g, Some(AggregateError::UnknownPartialInterface))
            }
        },
        EventView::CallbackInterface(_) => (g, Some(AggregateError::UnsupportedInterfaceKind)),
        EventView::RegularOperation(n) => step_operation(g, n, false),
        EventView::StaticOperation(n) => step_operation(g, n, true),
        EventView::SpecialOperation => (g, None),
        EventView::StringifierOperation => (g, None),
    }
}

/// The state after feeding the events of `es` one by one, starting
/// from `g`. Events that raise an error leave the state unchanged.
pub open spec fn run(g: GeneratorView, es: Seq<EventView>) -> GeneratorView
    decreases es.len(),
{
    if es.len() == 0 {
        g
    } else {
        step(run(g, es.drop_last()), es.last()).0
    }
}

/// The error carried by a handler's result, if any.
pub open spec fn err_of(r: Result<(), AggregateError>) -> Option<AggregateError> {
    match r {
        Ok(_) => None,
        Err(e) => Some(e),
    }
}

/// The generation context for one run: every module built so far,
/// keyed by interface name (names are unique), plus the cursor naming
/// the interface that operation events currently belong to.
///
/// The traversal of a WebIDL document drives it through the `on_*`
/// handlers, one per declaration kind, in document order; a handler
/// that returns an error leaves the state unchanged, and the caller is
/// expected to abort the run.
#[derive(Debug, Clone, PartialEq)]
pub struct BindingGenerator {
    modules: Vec<Module>,
    current_module_name: Option<String>,
}

impl View for BindingGenerator {
    type V = GeneratorView;

    closed spec fn view(&self) -> GeneratorView {
        GeneratorView {
            modules: module_views(self.modules@),
            active: match self.current_module_name {
                Option::Some(ref s) => Option::Some(s@),
                Option::None => Option::None,
            },
        }
    }
}

/// The position of the module named `name`, if one exists.
fn find_module_index(modules: &Vec<Module>, name: &String) -> (r: Option<usize>)
    ensures
        r is Some <==> has_module(module_views(modules@), name@),
        r is Some ==> r->0 < modules@.len() && modules@[r->0 as int]@.name == name@,
{
    let mut i: usize = 0;
    while i < modules.len()
        invariant
            i <= modules@.len(),
            forall|k: int| 0 <= k < i ==> module_views(modules@)[k].name != name@,
        decreases modules@.len() - i,
    {
        if modules[i].name == *name {
            assert(module_views(modules@)[i as int].name == name@);
            return Some(i);
        }
        i += 1;
    }
    assert(!has_module(module_views(modules@), name@));
    None
}

impl BindingGenerator {
    /// A generator that has seen no event yet: no modules, no active
    /// interface.
    pub fn new() -> (g: Self)
        ensures
            g@ == GeneratorView::empty(),
            g@.wf(),
    {
        let g = BindingGenerator { modules: Vec::new(), current_module_name: None };
        assert(g@.modules =~= Seq::<ModuleView>::empty());
        g
    }

    /// Handles a full (non-partial) interface declaration: creates the
    /// module for `name` and makes it the active interface. Rejected
    /// with `DuplicateInterface` when a module for `name` already
    /// exists — full interface names must be globally unique.
    pub fn on_full_interface(&mut self, name: &str) -> (r: Result<(), AggregateError>)
        requires
            old(self)@.wf(),
        ensures
            final(self)@.wf(),
            final(self)@ == step(old(self)@, EventView::FullInterface(name@)).0,
            err_of(r) == step(old(self)@, EventView::FullInterface(name@)).1,
            r is Ok <==> !has_module(old(self)@.modules, name@),
            r is Ok ==> final(self)@ == (GeneratorView {
                modules: old(self)@.modules.push(ModuleView::empty(name@)),
                active: Some(name@),
            }),
            r is Err ==> final(self)@ == old(self)@ && r->Err_0
                == AggregateError::DuplicateInterface,
    {
        let owned = String::from_str(name);
        if find_module_index(&self.modules, &owned).is_some() {
            return Err(AggregateError::DuplicateInterface);
        }
        let ghost before = self@;
        self.modules.push(Module::new(name));
        self.current_module_name = Some(owned);
        assert(self@.modules =~= before.modules.push(ModuleView::empty(name@)));
        assert(self@.wf()) by {
            assert(has_module(self@.modules, name@)) by {
                assert(self@.modules[before.modules.len() as int].name == name@);
            }
        }
        Ok(())
    }

    /// Handles a partial interface declaration: makes the module for
    /// `name` the active interface, so that subsequent operation events
    /// fold into it. Rejected with `UnknownPartialInterface` when no
    /// full interface declaration has introduced `name` — a partial
    /// interface can only extend a type, never create one.
    pub fn on_partial_interface(&mut self, name: &str) -> (r: Result<(), AggregateError>)
        requires
            old(self)@.wf(),
        ensures
            final(self)@.wf(),
            final(self)@ == step(old(self)@, EventView::PartialInterface(name@)).0,
            err_of(r) == step(old(self)@, EventView::PartialInterface(name@)).1,
            r is Ok <==> has_module(old(self)@.modules, name@),
            r is Ok ==> final(self)@ == (GeneratorView { active: Some(name@), ..old(self)@ }),
            r is Err ==> final(self)@ == old(self)@ && r->Err_0
                == AggregateError::UnknownPartialInterface,
    {
        let owned = String::from_str(name);
        if find_module_index(&self.modules, &owned).is_some() {
            self.current_module_name = Some(owned);
            Ok(())
        } else {
            Err(AggregateError::UnknownPartialInterface)
        }
    }

    /// Handles a callback interface declaration. Always rejected with
    /// `UnsupportedInterfaceKind`: callback interfaces have no host
    /// object to bind against, and fabricating a regular binding for
    /// one would be wrong.
    pub fn on_callback_interface(&mut self, name: &str) -> (r: Result<(), AggregateError>)
        ensures
            final(self)@ == old(self)@,
            final(self)@ == step(old(self)@, EventView::CallbackInterface(name@)).0,
            err_of(r) == step(old(self)@, EventView::CallbackInterface(name@)).1,
            r == Err::<(), AggregateError>(AggregateError::UnsupportedInterfaceKind),
    {
        Err(AggregateError::UnsupportedInterfaceKind)
    }

    /// Handles a regular operation declaration: adds `name` to the
    /// instance-member list of the active interface's module (a no-op
    /// when the name is already there). Rejected with
    /// `UnnamedOperation` when `name` is empty, and with
    /// `MissingActiveInterface` when no interface declaration has been
    /// seen yet — that would mean the traversal delivered events out
    /// of order.
    pub fn on_regular_operation(&mut self, name: &str) -> (r: Result<(), AggregateError>)
        requires
            old(self)@.wf(),
        ensures
            final(self)@.wf(),
            final(self)@ == step(old(self)@, EventView::RegularOperation(name@)).0,
            err_of(r) == step(old(self)@, EventView::RegularOperation(name@)).1,
            r is Ok <==> name@.len() > 0 && old(self)@.active is Some,
            r is Err ==> final(self)@ == old(self)@,
            name@.len() == 0 ==> r == Err::<(), AggregateError>(AggregateError::UnnamedOperation),
            name@.len() > 0 && old(self)@.active is None ==> r == Err::<(), AggregateError>(
                AggregateError::MissingActiveInterface,
            ),
    {
        self.add_operation(name, false)
    }

    /// Handles a static operation declaration: as
    /// `on_regular_operation`, but the name goes to the class-member
    /// list of the active interface's module.
    pub fn on_static_operation(&mut self, name: &str) -> (r: Result<(), AggregateError>)
        requires
            old(self)@.wf(),
        ensures
            final(self)@.wf(),
            final(self)@ == step(old(self)@, EventView::StaticOperation(name@)).0,
            err_of(r) == step(old(self)@, EventView::StaticOperation(name@)).1,
            r is Ok <==> name@.len() > 0 && old(self)@.active is Some,
            r is Err ==> final(self)@ == old(self)@,
            name@.len() == 0 ==> r == Err::<(), AggregateError>(AggregateError::UnnamedOperation),
            name@.len() > 0 && old(self)@.active is None ==> r == Err::<(), AggregateError>(
                AggregateError::MissingActiveInterface,
            ),
    {
        self.add_operation(name, true)
    }

    /// Handles a special operation declaration (getter, setter,
    /// deleter). Recognized but deliberately not lowered into any
    /// member list: special operations need a different calling
    /// convention than plain methods.
    pub fn on_special_operation(&mut self) -> (r: Result<(), AggregateError>)
        ensures
            final(self)@ == old(self)@,
            final(self)@ == step(old(self)@, EventView::SpecialOperation).0,
            err_of(r) == step(old(self)@, EventView::SpecialOperation).1,
            r is Ok,
    {
        Ok(())
    }

    /// Handles a stringifier operation declaration. Recognized but
    /// deliberately not lowered, for the same reason as special
    /// operations.
    pub fn on_stringifier_operation(&mut self) -> (r: Result<(), AggregateError>)
        ensures
            final(self)@ == old(self)@,
            final(self)@ == step(old(self)@, EventView::StringifierOperation).0,
            err_of(r) == step(old(self)@, EventView::StringifierOperation).1,
            r is Ok,
    {
        Ok(())
    }

    /// The common path of the two operation handlers.
    fn add_operation(&mut self, name: &str, is_static: bool) -> (r: Result<(), AggregateError>)
        requires
            old(self)@.wf(),
        ensures
            final(self)@.wf(),
            final(self)@ == step_operation(old(self)@, name@, is_static).0,
            err_of(r) == step_operation(old(self)@, name@, is_static).1,
            r is Ok <==> name@.len() > 0 && old(self)@.active is Some,
            r is Err ==> final(self)@ == old(self)@,
    {
        if name.is_empty() {
            return Err(AggregateError::UnnamedOperation);
        }
        let act = match &self.current_module_name {
            None => {
                return Err(AggregateError::MissingActiveInterface);
            },
            Some(s) => s.clone(),
        };
        let idx = match find_module_index(&self.modules, &act) {
            Some(i) => i,
            None => {
                assert(false);
                return Err(AggregateError::MissingActiveInterface);
            },
        };
        let ghost before = self@;
        let ghost gi = module_index(before.modules, act@);
        assert(gi == idx) by {
            assert(before.modules[gi].name == act@);
            assert(before.modules[idx as int].name == act@);
        }
        if is_static {
            self.modules[idx].add_class_member(name);
        } else {
            self.modules[idx].add_instance_member(name);
        }
        assert(self@.modules =~= before.modules.update(
            gi,
            add_member(before.modules[gi], name@, is_static),
        ));
        assert(self@.wf()) by {
            let ms = self@.modules;
            assert(forall|k: int|
                0 <= k < ms.len() ==> (#[trigger] ms[k]).name == before.modules[k].name);
            assert(before.modules[gi].wf());
            assert(forall|k: int| 0 <= k < ms.len() ==> (#[trigger] ms[k]).wf());
            assert(has_module(ms, act@)) by {
                assert(ms[gi].name == act@);
            }
        }
        Ok(())
    }

    /// The module that operation events currently fold into, if an
    /// interface is active.
    pub fn current_module(&self) -> (r: Option<&Module>)
        requires
            self@.wf(),
        ensures
            r is Some <==> self@.active is Some,
            r is Some ==> r->0@ == self@.modules[module_index(self@.modules, self@.active->0)],
    {
        let act = match &self.current_module_name {
            None => {
                return None;
            },
            Some(s) => s,
        };
        match find_module_index(&self.modules, act) {
            Some(i) => {
                let ghost gi = module_index(self@.modules, act@);
                assert(gi == i) by {
                    assert(self@.modules[gi].name == act@);
                    assert(self@.modules[i as int].name == act@);
                }
                Some(&self.modules[i])
            },
            None => {
                assert(false);
                None
            },
        }
    }

    /// The modules built so far, in creation order.
    pub fn modules(&self) -> (r: &Vec<Module>)
        ensures
            module_views(r@) == self@.modules,
    {
        &self.modules
    }
}

impl Default for BindingGenerator {
    /// Same as `BindingGenerator::new`.
    fn default() -> (g: Self)
        ensures
            g@ == GeneratorView::empty(),
            g@.wf(),
    {
        BindingGenerator::new()
    }
}

/// Copies the names out of a member list, in order.
fn member_name_vec(members: &Vec<Member>) -> (r: Vec<String>)
    ensures
        r@.map_values(|s: String| s@) =~= member_names(members@),
{
    let mut r: Vec<String> = Vec::new();
    let mut i: usize = 0;
    while i < members.len()
        invariant
            i <= members@.len(),
            r@.len() == i,
            forall|k: int| 0 <= k < i ==> r@.map_values(|s: String| s@)[k] == member_names(
                members@,
            )[k],
        decreases members@.len() - i,
    {
        r.push(members[i].name.clone());
        i += 1;
    }
    r
}

} // verus!
