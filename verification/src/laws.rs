//! The laws of the aggregator, proved over its transition model: what
//! idempotent insertion accumulates, that modules are never lost once
//! created, and which event sequences force each rejection.

use vstd::prelude::*;

use crate::model::AggregateError;
use crate::model::EventView;
use crate::model::GeneratorView;
use crate::model::ModuleView;
use crate::model::add_member;
use crate::model::distinct_module_names;
use crate::model::distinct_names;
use crate::model::has_module;
use crate::model::module_index;
use crate::model::push_unique;
use crate::model::run;
use crate::model::step;

verus! {

/// Adding a member name twice to the same list changes it no more than
/// adding it once: insertion is idempotent, so neither the size nor the
/// order of the list moves on the second insertion.
pub proof fn lemma_push_unique_idempotent(s: Seq<Seq<char>>, x: Seq<char>)
    ensures
        push_unique(push_unique(s, x), x) == push_unique(s, x),
{
    if !s.contains(x) {
        assert(s.push(x)[s.len() as int] == x);
        assert(s.push(x).contains(x));
    }
}

/// Under distinct module names, `module_index` is the one position
/// whose module carries the name.
proof fn lemma_module_index_of(ms: Seq<ModuleView>, name: Seq<char>, i: int)
    requires
        distinct_module_names(ms),
        0 <= i < ms.len(),
        ms[i].name == name,
    ensures
        module_index(ms, name) == i,
        has_module(ms, name),
{
    assert(has_module(ms, name));
    let j = module_index(ms, name);
    assert(0 <= j < ms.len() && ms[j].name == name);
    if i < j {
        assert(ms[i].name != ms[j].name);
    } else if j < i {
        assert(ms[j].name != ms[i].name);
    }
}

/// Every event preserves well-formedness: unique interface names,
/// duplicate-free member lists, and a valid active cursor.
pub proof fn lemma_step_wf(g: GeneratorView, e: EventView)
    requires
        g.wf(),
    ensures
        step(g, e).0.wf(),
{
    let g2 = step(g, e).0;
    match e {
        EventView::FullInterface(n) => {
            if !has_module(g.modules, n) {
                let ms = g2.modules;
                assert forall|i: int, j: int|
                    0 <= i < j < ms.len() implies ms[i].name != ms[j].name by {
                    if j == ms.len() - 1 {
                        assert(ms[i] == g.modules[i]);
                        if ms[i].name == n {
                            assert(has_module(g.modules, n));
                        }
                    }
                }
                assert(forall|i: int| 0 <= i < ms.len() ==> (#[trigger] ms[i]).wf());
                assert(ms[ms.len() - 1].name == n);
                assert(has_module(ms, n));
            }
        },
        EventView::PartialInterface(n) => {},
        EventView::CallbackInterface(_) => {},
        EventView::RegularOperation(n) => {
            lemma_step_operation_wf(g, n, false);
        },
        EventView::StaticOperation(n) => {
            lemma_step_operation_wf(g, n, true);
        },
        EventView::SpecialOperation => {},
        EventView::StringifierOperation => {},
    }
}

/// An operation event preserves well-formedness.
proof fn lemma_step_operation_wf(g: GeneratorView, name: Seq<char>, is_static: bool)
    requires
        g.wf(),
    ensures
        crate::model::step_operation(g, name, is_static).0.wf(),
{
    let g2 = crate::model::step_operation(g, name, is_static).0;
    if name.len() > 0 && g.active is Some {
        let act = g.active->0;
        let i = module_index(g.modules, act);
        assert(0 <= i < g.modules.len() && g.modules[i].name == act);
        let ms = g2.modules;
        assert(forall|k: int|
            0 <= k < ms.len() ==> (#[trigger] ms[k]).name == g.modules[k].name);
        assert(distinct_module_names(ms));
        assert(g.modules[i].wf());
        assert(ms[i].wf());
        assert(forall|k: int| 0 <= k < ms.len() ==> (#[trigger] ms[k]).wf());
        assert(ms[i].name == act);
        assert(has_module(ms, act));
    }
}

/// Once a module for `name` exists, no later event removes it: modules
/// live for the whole run.
pub proof fn lemma_step_keeps_module(g: GeneratorView, e: EventView, name: Seq<char>)
    requires
        g.wf(),
        has_module(g.modules, name),
    ensures
        has_module(step(g, e).0.modules, name),
{
    let i = choose|i: int| 0 <= i < g.modules.len() && g.modules[i].name == name;
    let ms = step(g, e).0.modules;
    assert(ms.len() >= g.modules.len());
    assert(ms[i].name == name) by {
        match e {
            EventView::FullInterface(n) => {
                if !has_module(g.modules, n) {
                    assert(ms[i] == g.modules[i]);
                }
            },
            EventView::RegularOperation(n) => {},
            EventView::StaticOperation(n) => {},
            _ => {},
        }
    }
}

/// `lemma_step_keeps_module`, extended over a whole event sequence,
/// together with preservation of well-formedness.
pub proof fn lemma_run_keeps_module(g: GeneratorView, es: Seq<EventView>, name: Seq<char>)
    requires
        g.wf(),
        has_module(g.modules, name),
    ensures
        run(g, es).wf(),
        has_module(run(g, es).modules, name),
    decreases es.len(),
{
    if es.len() > 0 {
        lemma_run_keeps_module(g, es.drop_last(), name);
        lemma_step_wf(run(g, es.drop_last()), es.last());
        lemma_step_keeps_module(run(g, es.drop_last()), es.last(), name);
    }
}

/// A second full interface declaration for a name is always rejected
/// with `DuplicateInterface`, whatever events came in between, and it
/// leaves the state unchanged.
pub proof fn lemma_duplicate_full_interface(
    g: GeneratorView,
    es: Seq<EventView>,
    name: Seq<char>,
)
    requires
        g.wf(),
        has_module(g.modules, name),
    ensures
        step(run(g, es), EventView::FullInterface(name)).1 == Some(
            AggregateError::DuplicateInterface,
        ),
        step(run(g, es), EventView::FullInterface(name)).0 == run(g, es),
{
    lemma_run_keeps_module(g, es, name);
}

/// Only a full interface declaration for `name` itself can create the
/// module for `name`.
proof fn lemma_step_no_new_module(g: GeneratorView, e: EventView, name: Seq<char>)
    requires
        g.wf(),
        !has_module(g.modules, name),
        e != EventView::FullInterface(name),
    ensures
        !has_module(step(g, e).0.modules, name),
{
    let ms = step(g, e).0.modules;
    match e {
        EventView::FullInterface(n) => {
            if !has_module(g.modules, n) {
                assert forall|i: int| 0 <= i < ms.len() implies ms[i].name != name by {
                    if i < ms.len() - 1 {
                        assert(ms[i] == g.modules[i]);
                        if ms[i].name == name {
                            assert(has_module(g.modules, name));
                        }
                    } else {
                        assert(ms[i].name == n);
                    }
                }
            }
        },
        _ => {
            assert forall|i: int| 0 <= i < ms.len() implies ms[i].name != name by {
                assert(ms[i].name == g.modules[i].name);
                if ms[i].name == name {
                    assert(has_module(g.modules, name));
                }
            }
        },
    }
}

/// A partial interface declaration for a name that no full interface
/// declaration has introduced is always rejected with
/// `UnknownPartialInterface`, and it leaves the state unchanged.
pub proof fn lemma_partial_without_full(g: GeneratorView, es: Seq<EventView>, name: Seq<char>)
    requires
        g.wf(),
        !has_module(g.modules, name),
        forall|k: int| 0 <= k < es.len() ==> es[k] != EventView::FullInterface(name),
    ensures
        step(run(g, es), EventView::PartialInterface(name)).1 == Some(
            AggregateError::UnknownPartialInterface,
        ),
        step(run(g, es), EventView::PartialInterface(name)).0 == run(g, es),
    decreases es.len(),
{
    if es.len() == 0 {
    } else {
        lemma_partial_without_full(g, es.drop_last(), name);
        lemma_run_wf(g, es.drop_last());
        lemma_step_no_new_module(run(g, es.drop_last()), es.last(), name);
    }
}

/// The names of the regular operations that `es` contributes, in
/// document order.
pub open spec fn regular_names(es: Seq<EventView>) -> Seq<Seq<char>>
    decreases es.len(),
{
    if es.len() == 0 {
        Seq::empty()
    } else {
        regular_names(es.drop_last()) + (match es.last() {
            EventView::RegularOperation(n) => seq![n],
            _ => Seq::empty(),
        })
    }
}

/// The names of the static operations that `es` contributes, in
/// document order.
pub open spec fn static_names(es: Seq<EventView>) -> Seq<Seq<char>>
    decreases es.len(),
{
    if es.len() == 0 {
        Seq::empty()
    } else {
        static_names(es.drop_last()) + (match es.last() {
            EventView::StaticOperation(n) => seq![n],
            _ => Seq::empty(),
        })
    }
}

/// `names` folded into `s` by idempotent insertion, left to right.
pub open spec fn merge_into(s: Seq<Seq<char>>, names: Seq<Seq<char>>) -> Seq<Seq<char>>
    decreases names.len(),
{
    if names.len() == 0 {
        s
    } else {
        push_unique(merge_into(s, names.drop_last()), names.last())
    }
}

/// The events that may stand between a full interface declaration for
/// `a` and the end of the declarations contributing to `a`: partial
/// interface declarations for `a` itself, named operations, and the
/// operation kinds that are recognized but not lowered.
pub open spec fn event_extends(e: EventView, a: Seq<char>) -> bool {
    match e {
        EventView::FullInterface(_) => false,
        EventView::PartialInterface(n) => n == a,
        EventView::CallbackInterface(_) => false,
        EventView::RegularOperation(n) => n.len() > 0,
        EventView::StaticOperation(n) => n.len() > 0,
        EventView::SpecialOperation => true,
        EventView::StringifierOperation => true,
    }
}

/// Every event of `es` extends the interface `a`.
pub open spec fn extends_only(es: Seq<EventView>, a: Seq<char>) -> bool {
    forall|k: int| 0 <= k < es.len() ==> event_extends(#[trigger] es[k], a)
}

/// A membership splits over dropping the last element.
proof fn lemma_contains_split(names: Seq<Seq<char>>, y: Seq<char>)
    requires
        names.len() > 0,
    ensures
        names.contains(y) <==> names.drop_last().contains(y) || names.last() == y,
{
    if names.contains(y) {
        let k = choose|k: int| 0 <= k < names.len() && names[k] == y;
        if k < names.len() - 1 {
            assert(names.drop_last()[k] == y);
        }
    }
    if names.drop_last().contains(y) {
        let k = choose|k: int| 0 <= k < names.drop_last().len() && names.drop_last()[k] == y;
        assert(names[k] == y);
    }
    if names.last() == y {
        assert(names[names.len() - 1] == y);
    }
}

/// What a fold of idempotent insertions accumulates: a duplicate-free
/// list that contains exactly the old names and the inserted ones — a
/// union by name — and that keeps the old list as its prefix, so the
/// order of what was already there never moves.
pub proof fn lemma_merge_into_union(s: Seq<Seq<char>>, names: Seq<Seq<char>>)
    requires
        distinct_names(s),
    ensures
        distinct_names(merge_into(s, names)),
        forall|y: Seq<char>|
            #[trigger] merge_into(s, names).contains(y) <==> s.contains(y) || names.contains(y),
        merge_into(s, names).len() >= s.len(),
        forall|k: int| 0 <= k < s.len() ==> merge_into(s, names)[k] == s[k],
    decreases names.len(),
{
    if names.len() == 0 {
        assert forall|y: Seq<char>|
            #[trigger] merge_into(s, names).contains(y) <==> s.contains(y) || names.contains(
                y,
            ) by {
            if names.contains(y) {
                let k = choose|k: int| 0 <= k < names.len() && names[k] == y;
            }
        }
    } else {
        lemma_merge_into_union(s, names.drop_last());
        let m0 = merge_into(s, names.drop_last());
        let x = names.last();
        let m1 = merge_into(s, names);
        assert(m1 == push_unique(m0, x));
        if !m0.contains(x) {
            assert(m1 == m0.push(x));
            assert forall|i: int, j: int| 0 <= i < j < m1.len() implies m1[i] != m1[j] by {
                if j == m1.len() - 1 {
                    assert(m1[i] == m0[i]);
                    if m0[i] == x {
                        assert(m0.contains(x));
                    }
                } else {
                    assert(m1[i] == m0[i] && m1[j] == m0[j]);
                }
            }
        }
        assert forall|y: Seq<char>|
            #[trigger] m1.contains(y) <==> s.contains(y) || names.contains(y) by {
            lemma_contains_split(names, y);
            if m0.contains(x) {
                assert(m1 == m0);
                if y == x {
                    assert(m1.contains(y));
                }
            } else {
                if m1.contains(y) {
                    let k = choose|k: int| 0 <= k < m1.len() && m1[k] == y;
                    if k < m0.len() {
                        assert(m0[k] == y);
                        assert(m0.contains(y));
                    } else {
                        assert(y == x);
                    }
                }
                if m0.contains(y) {
                    let k = choose|k: int| 0 <= k < m0.len() && m0[k] == y;
                    assert(m1[k] == y);
                }
                if y == x {
                    assert(m1[m0.len() as int] == y);
                }
            }
        }
    }
}

/// Well-formedness is an invariant of whole runs, not only of single
/// steps.
pub proof fn lemma_run_wf(g: GeneratorView, es: Seq<EventView>)
    requires
        g.wf(),
    ensures
        run(g, es).wf(),
    decreases es.len(),
{
    if es.len() > 0 {
        lemma_run_wf(g, es.drop_last());
        lemma_step_wf(run(g, es.drop_last()), es.last());
    }
}

/// The accumulation law: after a full interface declaration for `a`
/// (which leaves `a` active) and any interleaving of partial interface
/// declarations for `a` and operation events, the module for `a` holds,
/// in each member list, the idempotent fold of every contributed name
/// in document order — the union by name of all contributing
/// declarations, in first-seen order (`lemma_merge_into_union` says
/// what that fold accumulates). Every other module is untouched, and no
/// event of the sequence is rejected.
pub proof fn lemma_partial_merge(g: GeneratorView, a: Seq<char>, es: Seq<EventView>)
    requires
        g.wf(),
        g.active == Some(a),
        extends_only(es, a),
    ensures
        ({
            let g2 = run(g, es);
            let i = module_index(g.modules, a);
            &&& g2.wf()
            &&& g2.active == Some(a)
            &&& g2.modules.len() == g.modules.len()
            &&& forall|k: int|
                0 <= k < g.modules.len() && k != i ==> g2.modules[k] == g.modules[k]
            &&& g2.modules[i] =~= (ModuleView {
                name: g.modules[i].name,
                class_members: merge_into(g.modules[i].class_members, static_names(es)),
                instance_members: merge_into(g.modules[i].instance_members, regular_names(es)),
            })
            &&& errors_of_run(g, es) == Seq::<Option<AggregateError>>::new(
                es.len(),
                |k: int| None,
            )
        }),
    decreases es.len(),
{
    let i = module_index(g.modules, a);
    assert(has_module(g.modules, a));
    assert(0 <= i < g.modules.len() && g.modules[i].name == a);
    if es.len() == 0 {
        assert(run(g, es) == g);
        assert(errors_of_run(g, es) =~= Seq::<Option<AggregateError>>::new(0, |k: int| None));
    } else {
        let es0 = es.drop_last();
        let e = es.last();
        assert(extends_only(es0, a)) by {
            assert(forall|k: int| 0 <= k < es0.len() ==> es0[k] == es[k]);
        }
        assert(event_extends(e, a));
        lemma_partial_merge(g, a, es0);
        let g1 = run(g, es0);
        let g2 = run(g, es);
        assert(g2 == step(g1, e).0);
        lemma_step_wf(g1, e);
        assert(g1.modules[i].name == a);
        lemma_module_index_of(g1.modules, a, i);
        assert(errors_of_run(g, es) =~= errors_of_run(g, es0).push(step(g1, e).1));
        match e {
            EventView::PartialInterface(n) => {
                assert(g2 =~= g1);
                assert(regular_names(es) =~= regular_names(es0));
                assert(static_names(es) =~= static_names(es0));
            },
            EventView::RegularOperation(n) => {
                assert(g2.modules == g1.modules.update(
                    i,
                    add_member(g1.modules[i], n, false),
                ));
                assert(regular_names(es) =~= regular_names(es0).push(n));
                assert(static_names(es) =~= static_names(es0));
                lemma_merge_push(g.modules[i].instance_members, regular_names(es0), n);
                assert(g2.modules[i] =~= (ModuleView {
                    name: g.modules[i].name,
                    class_members: merge_into(g.modules[i].class_members, static_names(es)),
                    instance_members: merge_into(
                        g.modules[i].instance_members,
                        regular_names(es),
                    ),
                }));
            },
            EventView::StaticOperation(n) => {
                assert(g2.modules == g1.modules.update(i, add_member(g1.modules[i], n, true)));
                assert(static_names(es) =~= static_names(es0).push(n));
                assert(regular_names(es) =~= regular_names(es0));
                lemma_merge_push(g.modules[i].class_members, static_names(es0), n);
                assert(g2.modules[i] =~= (ModuleView {
                    name: g.modules[i].name,
                    class_members: merge_into(g.modules[i].class_members, static_names(es)),
                    instance_members: merge_into(
                        g.modules[i].instance_members,
                        regular_names(es),
                    ),
                }));
            },
            EventView::SpecialOperation => {
                assert(regular_names(es) =~= regular_names(es0));
                assert(static_names(es) =~= static_names(es0));
            },
            EventView::StringifierOperation => {
                assert(regular_names(es) =~= regular_names(es0));
                assert(static_names(es) =~= static_names(es0));
            },
            _ => {
                assert(false);
            },
        }
    }
}

/// Folding one more name is one more idempotent insertion.
proof fn lemma_merge_push(s: Seq<Seq<char>>, names: Seq<Seq<char>>, x: Seq<char>)
    ensures
        merge_into(s, names.push(x)) == push_unique(merge_into(s, names), x),
{
    assert(names.push(x).drop_last() =~= names);
    assert(names.push(x).last() == x);
}

/// The error raised at each event of a run, in order (`None` where the
/// event was accepted).
pub open spec fn errors_of_run(g: GeneratorView, es: Seq<EventView>) -> Seq<
    Option<AggregateError>,
>
    decreases es.len(),
{
    if es.len() == 0 {
        Seq::empty()
    } else {
        errors_of_run(g, es.drop_last()).push(step(run(g, es.drop_last()), es.last()).1)
    }
}

} // verus!
