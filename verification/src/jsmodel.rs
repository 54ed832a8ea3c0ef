//! Model of the top level of an ECMAScript module, and extraction of task
//! declarations from it.
//!
//! A task declaration is a top-level expression statement that is a plain
//! call of a fixed declaration function — the callee written as a bare
//! identifier — whose first argument is a string literal. Only the module's
//! own statement list is inspected: calls nested inside function bodies,
//! class bodies or any other block are not represented here and so can never
//! be reported.

use vstd::prelude::*;

use crate::strutil::str_eq;

verus! {

/// The callee of a top-level call expression.
pub enum JsCallee {
    /// A bare identifier, e.g. `task` in `task("x")`.
    Ident(String),
    /// Any other callee expression: a member access, a computed callee,
    /// a call result, a parenthesised expression.
    OtherExpr,
    /// Not an expression at all: `super(...)` or dynamic `import(...)`.
    NotExpr,
}

/// One argument of a top-level call expression.
pub enum JsArg {
    /// A string literal, carrying its decoded value.
    Str(String),
    /// Any other argument: an identifier, a template literal, a number, ...
    Other,
}

/// The expression of a top-level expression statement.
pub enum JsExprKind {
    /// A call expression with its callee and arguments.
    Call { callee: JsCallee, args: Vec<JsArg> },
    /// Any other expression.
    Other,
}

/// One statement of the module's top-level statement list.
pub enum JsStmt {
    /// An expression statement.
    Expr(JsExprKind),
    /// Any other statement (declarations, blocks, control flow, ...).
    /// Whatever such a statement nests is deliberately not represented.
    Other,
}

/// One item of a module's body.
pub enum JsTopItem {
    /// A statement.
    Stmt(JsStmt),
    /// An import or export declaration.
    Decl,
}

/// The string value of an argument, when it is a string literal.
pub open spec fn arg_str(a: JsArg) -> Option<Seq<char>> {
    match a {
        JsArg::Str(s) => Some(s@),
        JsArg::Other => None,
    }
}

/// The task name declared by one top-level item: the first argument's
/// literal value, present exactly when the item is a plain call of the
/// declaration function `decl` with a string-literal first argument.
pub open spec fn item_task_name(item: JsTopItem, decl: Seq<char>) -> Option<Seq<char>> {
    match item {
        JsTopItem::Stmt(stmt) => match stmt {
            JsStmt::Expr(e) => match e {
                JsExprKind::Call { callee, args } => match callee {
                    JsCallee::Ident(name) => if name@ == decl && args@.len() > 0 {
                        arg_str(args@[0])
                    } else {
                        None
                    },
                    _ => None,
                },
                _ => None,
            },
            _ => None,
        },
        _ => None,
    }
}

/// The task names contributed by one item: one name or none.
pub open spec fn item_names(item: JsTopItem, decl: Seq<char>) -> Seq<Seq<char>> {
    match item_task_name(item, decl) {
        Some(n) => seq![n],
        None => Seq::empty(),
    }
}

/// All task names declared by the items, in source order, duplicates kept.
pub open spec fn task_names_spec(items: Seq<JsTopItem>, decl: Seq<char>) -> Seq<Seq<char>>
    decreases items.len(),
{
    if items.len() == 0 {
        Seq::empty()
    } else {
        item_names(items[0], decl) + task_names_spec(items.drop_first(), decl)
    }
}

/// The number of top-level declaration calls with a string-literal first
/// argument among the items.
pub open spec fn decl_count(items: Seq<JsTopItem>, decl: Seq<char>) -> int
    decreases items.len(),
{
    if items.len() == 0 {
        0
    } else {
        (if item_task_name(items[0], decl) is Some {
            1int
        } else {
            0int
        }) + decl_count(items.drop_first(), decl)
    }
}

/// Exactly one name is returned for each top-level declaration call with a
/// string-literal first argument: no more, no fewer.
pub proof fn lemma_task_names_count(items: Seq<JsTopItem>, decl: Seq<char>)
    ensures
        task_names_spec(items, decl).len() == decl_count(items, decl),
    decreases items.len(),
{
    if items.len() > 0 {
        lemma_task_names_count(items.drop_first(), decl);
    }
}

/// Extraction distributes over concatenation of item lists: the names of a
/// source text are the names of its top-level items in source order, each
/// item contributing independently of what stands around it.
pub proof fn lemma_task_names_concat(a: Seq<JsTopItem>, b: Seq<JsTopItem>, decl: Seq<char>)
    ensures
        task_names_spec(a + b, decl) == task_names_spec(a, decl) + task_names_spec(b, decl),
    decreases a.len(),
{
    if a.len() == 0 {
        assert(a + b =~= b);
        assert(task_names_spec(a, decl) + task_names_spec(b, decl) =~= task_names_spec(b, decl));
    } else {
        assert((a + b).len() > 0);
        assert((a + b)[0] == a[0]);
        assert((a + b).drop_first() =~= a.drop_first() + b);
        lemma_task_names_concat(a.drop_first(), b, decl);
        assert(item_names(a[0], decl) + (task_names_spec(a.drop_first(), decl) + task_names_spec(
            b,
            decl,
        )) =~= (item_names(a[0], decl) + task_names_spec(a.drop_first(), decl))
            + task_names_spec(b, decl));
    }
}

/// The names of a single-item list are that item's own names.
pub proof fn lemma_task_names_single(item: JsTopItem, decl: Seq<char>)
    ensures
        task_names_spec(seq![item], decl) == item_names(item, decl),
{
    assert(seq![item][0] == item);
    assert(seq![item].drop_first() =~= Seq::<JsTopItem>::empty());
    assert(task_names_spec(seq![item].drop_first(), decl) == Seq::<Seq<char>>::empty());
    assert(item_names(item, decl) + Seq::<Seq<char>>::empty() =~= item_names(item, decl));
}

/// An item that is not a plain declaration call with a string-literal first
/// argument — among them every nested construct, represented as an opaque
/// statement — contributes no task name.
pub proof fn lemma_non_decl_adds_nothing(
    item: JsTopItem,
    items: Seq<JsTopItem>,
    decl: Seq<char>,
)
    requires
        item_task_name(item, decl) is None,
    ensures
        task_names_spec(seq![item] + items, decl) == task_names_spec(items, decl),
{
    lemma_task_names_concat(seq![item], items, decl);
    lemma_task_names_single(item, decl);
    assert(Seq::<Seq<char>>::empty() + task_names_spec(items, decl) =~= task_names_spec(
        items,
        decl,
    ));
}

/// A plain declaration call with a string-literal first argument contributes
/// exactly its literal value, in front of what follows it.
pub proof fn lemma_decl_adds_name(
    item: JsTopItem,
    items: Seq<JsTopItem>,
    decl: Seq<char>,
    n: Seq<char>,
)
    requires
        item_task_name(item, decl) == Some(n),
    ensures
        task_names_spec(seq![item] + items, decl) == seq![n] + task_names_spec(items, decl),
{
    lemma_task_names_concat(seq![item], items, decl);
    lemma_task_names_single(item, decl);
}

/// Walks the top-level items and collects the declared task names, in source
/// order, duplicates kept.
pub fn extract_task_names(items: &Vec<JsTopItem>, decl: &str) -> (r: Vec<String>)
    ensures
        r.deep_view() == task_names_spec(items@, decl@),
{
    let mut r: Vec<String> = Vec::new();
    let n = items.len();
    let mut i: usize = 0;
    proof {
        assert(items@.take(0) =~= Seq::<JsTopItem>::empty());
        assert(r.deep_view() =~= task_names_spec(items@.take(0), decl@));
    }
    while i < n
        invariant
            i <= n == items@.len(),
            r.deep_view() == task_names_spec(items@.take(i as int), decl@),
        decreases n - i,
    {
        let ghost r_before = r.deep_view();
        let name_opt: Option<String> = match &items[i] {
            JsTopItem::Stmt(JsStmt::Expr(JsExprKind::Call { callee: JsCallee::Ident(name), args })) => {
                if str_eq(name.as_str(), decl) && args.len() > 0 {
                    match &args[0] {
                        JsArg::Str(s) => Some(s.clone()),
                        JsArg::Other => None,
                    }
                } else {
                    None
                }
            },
            _ => None,
        };
        match name_opt {
            Some(nm) => {
                proof {
                    assert(item_task_name(items@[i as int], decl@) == Some(nm@));
                }
                r.push(nm);
                proof {
                    assert(r.deep_view() =~= r_before + item_names(items@[i as int], decl@));
                }
            },
            None => {
                proof {
                    assert(item_task_name(items@[i as int], decl@) is None);
                    assert(r.deep_view() =~= r_before + item_names(items@[i as int], decl@));
                }
            },
        }
        proof {
            assert(items@.take(i + 1) =~= items@.take(i as int) + seq![items@[i as int]]);
            lemma_task_names_concat(items@.take(i as int), seq![items@[i as int]], decl@);
            lemma_task_names_single(items@[i as int], decl@);
        }
        i = i + 1;
    }
    proof {
        assert(items@.take(n as int) =~= items@);
    }
    r
}

} // verus!
