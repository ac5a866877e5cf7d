//! The functions of a program, in the order in which they are compiled.

use crate::ast::{stmt_views, Function, FunctionView, Statement, StmtView};
use crate::compiler::lowering::function_views;
use vstd::prelude::*;

verus! {

/// The functions among the statements, in their order.
pub open spec fn functions_of(ss: Seq<StmtView>) -> Seq<FunctionView>
    decreases ss.len(),
{
    if ss.len() == 0 {
        Seq::empty()
    } else {
        match ss.last() {
            StmtView::Function(f) => functions_of(ss.drop_last()).push(f),
            _ => functions_of(ss.drop_last()),
        }
    }
}

/// The index of the first function of that name at or behind `from`, or the
/// number of functions if there is none.
pub open spec fn first_named(fs: Seq<FunctionView>, name: Seq<char>, from: int) -> int
    decreases fs.len() - from,
{
    if from < 0 || from >= fs.len() {
        fs.len() as int
    } else if fs[from].name == name {
        from
    } else {
        first_named(fs, name, from + 1)
    }
}

/// The functions among the statements in the order in which they are
/// compiled: in their order, but with the first function named `main`, if
/// there is one, moved to the front. Execution starts with the first
/// function that is compiled.
pub open spec fn entry_order_of(ss: Seq<StmtView>) -> Seq<FunctionView> {
    let fs = functions_of(ss);
    let main = first_named(fs, "main"@, 0);
    if main < fs.len() {
        fs.remove(main).insert(0, fs[main])
    } else {
        fs
    }
}

/// Whether the function is named `main`.
fn is_main(f: &Function) -> (main: bool)
    ensures
        main == (f@.name == "main"@),
{
    f.name == String::from_str("main")
}

/// The functions among the statements, in the order in which they are
/// compiled.
pub fn entry_order(statements: Vec<Statement>) -> (functions: Vec<Function>)
    ensures
        function_views(functions@) == entry_order_of(stmt_views(statements@)),
{
    let ghost items = statements@;
    let mut functions: Vec<Function> = Vec::new();
    proof {
        assert(function_views(functions@) =~= functions_of(stmt_views(items.take(0))));
    }
    for stmt in it: statements
        invariant
            it.seq() == items,
            function_views(functions@) == functions_of(stmt_views(items.take(it.index() as int))),
    {
        let ghost i = it.index() as int;
        let ghost before = functions@;
        proof {
            assert(items.take(i + 1).drop_last() == items.take(i));
            assert(stmt_views(items.take(i + 1)).drop_last() =~= stmt_views(items.take(i)));
            assert(stmt_views(items.take(i + 1)).last() == stmt@);
        }
        match stmt {
            Statement::Function(f) => {
                functions.push(f);
                proof {
                    assert(function_views(functions@) =~= function_views(before).push(f@));
                }
            },
            _ => {},
        }
    }
    proof {
        assert(items.take(items.len() as int) == items);
    }
    let ghost fs = function_views(functions@);
    let mut main: usize = 0;
    while main < functions.len() && !is_main(&functions[main])
        invariant
            main <= functions.len(),
            fs == function_views(functions@),
            first_named(fs, "main"@, 0) == first_named(fs, "main"@, main as int),
        decreases functions.len() - main,
    {
        main += 1;
    }
    if main < functions.len() {
        let first = functions.remove(main);
        functions.insert(0, first);
        proof {
            assert(function_views(functions@) =~= fs.remove(main as int).insert(
                0,
                fs[main as int],
            ));
        }
    }
    functions
}

} // verus!
