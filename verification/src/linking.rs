//! What linking the imports of a module gives, as mathematical values.

use vstd::prelude::*;
use crate::error::LinkErrorView;
use crate::export::{Context, Export};
use crate::global::Global;
use crate::import::ImportObject;
use crate::memory::Memory;
use crate::module::ModuleInner;
use crate::table::Table;
use crate::vm;

verus! {

/// What linking one import gives: the linked item or the error.
pub type Outcome<T> = Result<T, LinkErrorView>;

/// The items of the outcomes that are no errors, in order.
pub open spec fn accepted<T>(outcomes: Seq<Outcome<T>>) -> Seq<T>
    decreases outcomes.len(),
{
    if outcomes.len() == 0 {
        Seq::empty()
    } else {
        match outcomes.last() {
            Ok(item) => accepted(outcomes.drop_last()).push(item),
            Err(_) => accepted(outcomes.drop_last()),
        }
    }
}

/// The errors among the outcomes, in order.
pub open spec fn rejected<T>(outcomes: Seq<Outcome<T>>) -> Seq<LinkErrorView>
    decreases outcomes.len(),
{
    if outcomes.len() == 0 {
        Seq::empty()
    } else {
        match outcomes.last() {
            Ok(_) => rejected(outcomes.drop_last()),
            Err(error) => rejected(outcomes.drop_last()).push(error),
        }
    }
}

/// Each outcome is counted once: as an item or as an error.
pub proof fn lemma_outcomes_counted<T>(outcomes: Seq<Outcome<T>>)
    ensures
        accepted(outcomes).len() + rejected(outcomes).len() == outcomes.len(),
    decreases outcomes.len(),
{
    if outcomes.len() > 0 {
        lemma_outcomes_counted(outcomes.drop_last());
    }
}

/// There is no error among the outcomes exactly when each is an item, and
/// then the items are the outcomes, one for one.
pub proof fn lemma_none_rejected<T>(outcomes: Seq<Outcome<T>>)
    ensures
        rejected(outcomes).len() == 0 <==> forall|i: int|
            0 <= i < outcomes.len() ==> outcomes[i].is_ok(),
        rejected(outcomes).len() == 0 ==> accepted(outcomes).len() == outcomes.len()
            && forall|i: int|
            0 <= i < outcomes.len() ==> outcomes[i] == Ok::<T, LinkErrorView>(
                accepted(outcomes)[i],
            ),
    decreases outcomes.len(),
{
    if outcomes.len() > 0 {
        let front = outcomes.drop_last();
        lemma_none_rejected(front);
        if rejected(outcomes).len() == 0 {
            assert forall|i: int| 0 <= i < outcomes.len() implies outcomes[i].is_ok()
                && outcomes[i] == Ok::<T, LinkErrorView>(accepted(outcomes)[i]) by {
                if i < front.len() {
                    assert(outcomes[i] == front[i]);
                }
            }
        } else if outcomes.last().is_ok() {
            let i = choose|i: int| 0 <= i < front.len() && !front[i].is_ok();
            assert(outcomes[i] == front[i]);
        }
    }
}

/// One more outcome adds its item or its error, and nothing else.
pub proof fn lemma_next_outcome<T>(outcomes: Seq<Outcome<T>>, i: int)
    requires
        0 <= i < outcomes.len(),
    ensures
        accepted(outcomes.subrange(0, i + 1)) == (match outcomes[i] {
            Ok(item) => accepted(outcomes.subrange(0, i)).push(item),
            Err(_) => accepted(outcomes.subrange(0, i)),
        }),
        rejected(outcomes.subrange(0, i + 1)) == (match outcomes[i] {
            Ok(_) => rejected(outcomes.subrange(0, i)),
            Err(error) => rejected(outcomes.subrange(0, i)).push(error),
        }),
{
    assert(outcomes.subrange(0, i + 1).drop_last() =~= outcomes.subrange(0, i));
}

/// What linking the imported function `i` of `module` against `imports`
/// gives. A function of the expected signature is accepted, with the
/// context that its supplier names or, if it names none, with `vmctx`.
pub open spec fn function_import(
    module: &ModuleInner,
    imports: &ImportObject,
    vmctx: vm::Ctx,
    i: int,
) -> Outcome<vm::ImportedFunc> {
    let namespace = module.imported_functions[i].namespace@;
    let name = module.imported_functions[i].name@;
    let expected = module.signature_of(i)@;
    match imports.resolve(namespace, name) {
        Some(Export::Function { func, ctx, signature }) => if expected == signature@ {
            Ok(
                vm::ImportedFunc {
                    func: func.0,
                    vmctx: match ctx {
                        Context::External(ctx) => ctx,
                        Context::Internal => vmctx,
                    },
                },
            )
        } else {
            Err(
                LinkErrorView::IncorrectImportSignature {
                    namespace,
                    name,
                    expected,
                    found: signature@,
                },
            )
        },
        Some(other) => Err(
            LinkErrorView::IncorrectImportType {
                namespace,
                name,
                expected: "function"@,
                found: other.spec_kind_name(),
            },
        ),
        None => Err(LinkErrorView::ImportNotFound { namespace, name }),
    }
}

/// What linking the imported memory `i` of `module` against `imports`
/// gives. A memory whose descriptor fits the expected one is accepted.
pub open spec fn memory_import(module: &ModuleInner, imports: &ImportObject, i: int) -> Outcome<
    Memory,
> {
    let namespace = module.imported_memories[i].0.namespace@;
    let name = module.imported_memories[i].0.name@;
    let expected = module.imported_memories[i].1;
    match imports.resolve(namespace, name) {
        Some(Export::Memory(memory)) => if expected.spec_fits_in_imported(memory.desc) {
            Ok(memory)
        } else {
            Err(
                LinkErrorView::IncorrectMemoryDescriptor {
                    namespace,
                    name,
                    expected,
                    found: memory.desc,
                },
            )
        },
        Some(other) => Err(
            LinkErrorView::IncorrectImportType {
                namespace,
                name,
                expected: "memory"@,
                found: other.spec_kind_name(),
            },
        ),
        None => Err(LinkErrorView::ImportNotFound { namespace, name }),
    }
}

/// What linking the imported table `i` of `module` against `imports` gives.
/// A table whose descriptor fits the expected one is accepted.
pub open spec fn table_import(module: &ModuleInner, imports: &ImportObject, i: int) -> Outcome<
    Table,
> {
    let namespace = module.imported_tables[i].0.namespace@;
    let name = module.imported_tables[i].0.name@;
    let expected = module.imported_tables[i].1;
    match imports.resolve(namespace, name) {
        Some(Export::Table(table)) => if expected.spec_fits_in_imported(table.desc) {
            Ok(table)
        } else {
            Err(
                LinkErrorView::IncorrectTableDescriptor {
                    namespace,
                    name,
                    expected,
                    found: table.desc,
                },
            )
        },
        Some(other) => Err(
            LinkErrorView::IncorrectImportType {
                namespace,
                name,
                expected: "table"@,
                found: other.spec_kind_name(),
            },
        ),
        None => Err(LinkErrorView::ImportNotFound { namespace, name }),
    }
}

/// What linking the imported global `i` of `module` against `imports`
/// gives. A global of exactly the expected descriptor is accepted.
pub open spec fn global_import(module: &ModuleInner, imports: &ImportObject, i: int) -> Outcome<
    Global,
> {
    let namespace = module.imported_globals[i].0.namespace@;
    let name = module.imported_globals[i].0.name@;
    let expected = module.imported_globals[i].1;
    match imports.resolve(namespace, name) {
        Some(Export::Global(global)) => if global.desc == expected {
            Ok(global)
        } else {
            Err(
                LinkErrorView::IncorrectGlobalDescriptor {
                    namespace,
                    name,
                    expected,
                    found: global.desc,
                },
            )
        },
        Some(other) => Err(
            LinkErrorView::IncorrectImportType {
                namespace,
                name,
                expected: "global"@,
                found: other.spec_kind_name(),
            },
        ),
        None => Err(LinkErrorView::ImportNotFound { namespace, name }),
    }
}

/// The outcomes of linking the imported functions of `module`, in order.
pub open spec fn function_imports(
    module: &ModuleInner,
    imports: &ImportObject,
    vmctx: vm::Ctx,
) -> Seq<Outcome<vm::ImportedFunc>> {
    Seq::new(
        module.imported_functions.len() as nat,
        |i: int| function_import(module, imports, vmctx, i),
    )
}

/// The outcomes of linking the imported memories of `module`, in order.
pub open spec fn memory_imports(module: &ModuleInner, imports: &ImportObject) -> Seq<
    Outcome<Memory>,
> {
    Seq::new(module.imported_memories.len() as nat, |i: int| memory_import(module, imports, i))
}

/// The outcomes of linking the imported tables of `module`, in order.
pub open spec fn table_imports(module: &ModuleInner, imports: &ImportObject) -> Seq<
    Outcome<Table>,
> {
    Seq::new(module.imported_tables.len() as nat, |i: int| table_import(module, imports, i))
}

/// The outcomes of linking the imported globals of `module`, in order.
pub open spec fn global_imports(module: &ModuleInner, imports: &ImportObject) -> Seq<
    Outcome<Global>,
> {
    Seq::new(module.imported_globals.len() as nat, |i: int| global_import(module, imports, i))
}

/// Every error that linking `module` against `imports` finds: those of the
/// functions first, then those of the memories, of the tables and of the
/// globals, each group in the order of the module.
pub open spec fn link_errors(module: &ModuleInner, imports: &ImportObject, vmctx: vm::Ctx) -> Seq<
    LinkErrorView,
> {
    rejected(function_imports(module, imports, vmctx)) + rejected(memory_imports(module, imports))
        + rejected(table_imports(module, imports)) + rejected(global_imports(module, imports))
}

/// Whether something of the right kind, and compatible with what `module`
/// expects, is supplied for each of its imports.
pub open spec fn all_imports_match(
    module: &ModuleInner,
    imports: &ImportObject,
    vmctx: vm::Ctx,
) -> bool {
    &&& forall|i: int|
        0 <= i < module.imported_functions.len() ==> function_import(
            module,
            imports,
            vmctx,
            i,
        ).is_ok()
    &&& forall|i: int|
        0 <= i < module.imported_memories.len() ==> memory_import(module, imports, i).is_ok()
    &&& forall|i: int|
        0 <= i < module.imported_tables.len() ==> table_import(module, imports, i).is_ok()
    &&& forall|i: int|
        0 <= i < module.imported_globals.len() ==> global_import(module, imports, i).is_ok()
}

/// Linking finds no error exactly when every import matches, and it finds
/// one error for each import that does not: the errors and the accepted
/// items together are as many as the imports.
pub proof fn lemma_link_errors(module: &ModuleInner, imports: &ImportObject, vmctx: vm::Ctx)
    ensures
        link_errors(module, imports, vmctx).len() == 0 <==> all_imports_match(
            module,
            imports,
            vmctx,
        ),
        link_errors(module, imports, vmctx).len() + accepted(
            function_imports(module, imports, vmctx),
        ).len() + accepted(memory_imports(module, imports)).len() + accepted(
            table_imports(module, imports),
        ).len() + accepted(global_imports(module, imports)).len()
            == module.imported_functions.len() + module.imported_memories.len()
            + module.imported_tables.len() + module.imported_globals.len(),
{
    let functions = function_imports(module, imports, vmctx);
    let memories = memory_imports(module, imports);
    let tables = table_imports(module, imports);
    let globals = global_imports(module, imports);
    lemma_outcomes_counted(functions);
    lemma_outcomes_counted(memories);
    lemma_outcomes_counted(tables);
    lemma_outcomes_counted(globals);
    lemma_none_rejected(functions);
    lemma_none_rejected(memories);
    lemma_none_rejected(tables);
    lemma_none_rejected(globals);
    if link_errors(module, imports, vmctx).len() == 0 {
        assert forall|i: int| 0 <= i < module.imported_functions.len() implies function_import(
            module,
            imports,
            vmctx,
            i,
        ).is_ok() by {
            assert(functions[i].is_ok());
        }
        assert forall|i: int| 0 <= i < module.imported_memories.len() implies memory_import(
            module,
            imports,
            i,
        ).is_ok() by {
            assert(memories[i].is_ok());
        }
        assert forall|i: int| 0 <= i < module.imported_tables.len() implies table_import(
            module,
            imports,
            i,
        ).is_ok() by {
            assert(tables[i].is_ok());
        }
        assert forall|i: int| 0 <= i < module.imported_globals.len() implies global_import(
            module,
            imports,
            i,
        ).is_ok() by {
            assert(globals[i].is_ok());
        }
    }
}

/// A function is accepted only where a function is supplied under its name
/// whose signature is that which the module expects: the same parameter
/// types and the same result types, in the same order.
pub proof fn lemma_accepted_function_signature(
    module: &ModuleInner,
    imports: &ImportObject,
    vmctx: vm::Ctx,
    i: int,
)
    requires
        function_import(module, imports, vmctx, i).is_ok(),
    ensures
        imports.resolve(
            module.imported_functions[i].namespace@,
            module.imported_functions[i].name@,
        ) matches Some(Export::Function { signature, .. }) && signature@.params
            == module.signature_of(i)@.params && signature@.results == module.signature_of(
            i,
        )@.results,
{
}

/// An import is refused exactly when nothing is supplied under its name, or
/// something of another kind, or something that is not compatible with what
/// the module expects.
pub proof fn lemma_refused_imports(
    module: &ModuleInner,
    imports: &ImportObject,
    vmctx: vm::Ctx,
    i: int,
)
    ensures
        function_import(module, imports, vmctx, i).is_err() <==> !(imports.resolve(
            module.imported_functions[i].namespace@,
            module.imported_functions[i].name@,
        ) matches Some(Export::Function { signature, .. }) && signature@ == module.signature_of(
            i,
        )@),
        memory_import(module, imports, i).is_err() <==> !(imports.resolve(
            module.imported_memories[i].0.namespace@,
            module.imported_memories[i].0.name@,
        ) matches Some(Export::Memory(memory))
            && module.imported_memories[i].1.spec_fits_in_imported(memory.desc)),
        table_import(module, imports, i).is_err() <==> !(imports.resolve(
            module.imported_tables[i].0.namespace@,
            module.imported_tables[i].0.name@,
        ) matches Some(Export::Table(table)) && module.imported_tables[i].1.spec_fits_in_imported(
            table.desc,
        )),
        global_import(module, imports, i).is_err() <==> !(imports.resolve(
            module.imported_globals[i].0.namespace@,
            module.imported_globals[i].0.name@,
        ) matches Some(Export::Global(global)) && global.desc == module.imported_globals[i].1),
{
}

} // verus!
