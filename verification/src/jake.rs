//! The source-declaration backend: tasks declared as `task("name", ...)`
//! calls at the top level of a `jakefile.js`.
//!
//! The ECMAScript parse itself is done by the swc parser; its abstract
//! syntax tree is mapped, variant for variant, onto the library's own
//! top-level item model (`crate::jsmodel`), on which the verified extraction
//! runs.

use vstd::prelude::*;

use swc_common::sync::Lrc;
use swc_common::{FileName, SourceMap};
use swc_ecma_parser::lexer::Lexer;
use swc_ecma_parser::{Parser, StringInput, Syntax};

use crate::command::CommandPlan;
use crate::errors::RtError;
use crate::jsmodel::{
    extract_task_names, task_names_spec, JsArg, JsCallee, JsExprKind, JsStmt, JsTopItem,
};

verus! {

#[verifier::external_type_specification]
#[verifier::external_body]
pub struct ExModuleItem(swc_ecma_ast::ModuleItem);

#[verifier::external_type_specification]
#[verifier::external_body]
pub struct ExCallee(swc_ecma_ast::Callee);

#[verifier::external_type_specification]
#[verifier::external_body]
pub struct ExExprOrSpread(swc_ecma_ast::ExprOrSpread);

/// Relies on swc_ecma_ast::Callee: tells its variants apart. The callee is a
/// bare identifier exactly when it is `Callee::Expr` holding `Expr::Ident`.
#[verifier::external_body]
fn convert_callee(callee: &swc_ecma_ast::Callee) -> JsCallee {
    match callee {
        swc_ecma_ast::Callee::Expr(e) => match &**e {
            swc_ecma_ast::Expr::Ident(i) => JsCallee::Ident(i.sym.as_str().to_string()),
            _ => JsCallee::OtherExpr,
        },
        _ => JsCallee::NotExpr,
    }
}

/// Relies on swc_ecma_ast::ExprOrSpread: an argument is a string literal
/// exactly when its expression is `Expr::Lit` holding `Lit::Str`; the
/// literal's decoded value is taken.
#[verifier::external_body]
fn convert_arg(arg: &swc_ecma_ast::ExprOrSpread) -> JsArg {
    match &*arg.expr {
        swc_ecma_ast::Expr::Lit(swc_ecma_ast::Lit::Str(s)) => match s.value.as_str() {
            Some(v) => JsArg::Str(v.to_string()),
            None => JsArg::Other,
        },
        _ => JsArg::Other,
    }
}

/// Relies on swc_ecma_ast::ModuleItem: tells statements from import/export
/// declarations, expression statements from other statements, and call
/// expressions from other expressions, moving the callee and arguments on.
#[verifier::external_body]
fn convert_item(item: &swc_ecma_ast::ModuleItem) -> JsTopItem {
    match item {
        swc_ecma_ast::ModuleItem::Stmt(swc_ecma_ast::Stmt::Expr(es)) => match &*es.expr {
            swc_ecma_ast::Expr::Call(call) => JsTopItem::Stmt(JsStmt::Expr(JsExprKind::Call {
                callee: convert_callee(&call.callee),
                args: call.args.iter().map(convert_arg).collect(),
            })),
            _ => JsTopItem::Stmt(JsStmt::Expr(JsExprKind::Other)),
        },
        swc_ecma_ast::ModuleItem::Stmt(_) => JsTopItem::Stmt(JsStmt::Other),
        swc_ecma_ast::ModuleItem::ModuleDecl(_) => JsTopItem::Decl,
    }
}

/// The top-level items that parsing the source text yields, or `None` when
/// the text is not a syntactically valid module. Parsing is a function of
/// the source text alone.
pub uninterp spec fn js_top_items_of(src: Seq<char>) -> Option<Seq<JsTopItem>>;

/// Relies on swc_ecma_parser::Parser::parse_module: parses the text as an
/// ECMAScript module; the module's body is mapped onto the library's
/// top-level item model. Succeeds exactly on syntactically valid modules.
#[verifier::external_body]
fn parse_top_items(src: &str) -> (r: Result<Vec<JsTopItem>, String>)
    ensures
        r is Ok <==> js_top_items_of(src@) is Some,
        r is Ok ==> r->Ok_0@ == js_top_items_of(src@)->0,
{
    let cm: Lrc<SourceMap> = Default::default();
    let fm = cm.new_source_file(Lrc::new(FileName::Anon), src.to_string());
    let lexer = Lexer::new(
        Syntax::Es(Default::default()),
        Default::default(),
        StringInput::from(&*fm),
        None,
    );
    let mut parser = Parser::new_from(lexer);
    match parser.parse_module() {
        Ok(m) => Ok(m.body.iter().map(convert_item).collect()),
        Err(e) => Err(format!("{:?}", e)),
    }
}

/// Parses a source text and extracts the declared task names: the string
/// literals handed as first argument to top-level `task(...)` calls.
pub fn source_task_names(src: &str) -> (r: Result<Vec<String>, String>)
    ensures
        r is Ok <==> js_top_items_of(src@) is Some,
        r is Ok ==> r->Ok_0.deep_view() == task_names_spec(js_top_items_of(src@)->0, "task"@),
{
    match parse_top_items(src) {
        Ok(items) => Ok(extract_task_names(&items, "task")),
        Err(e) => Err(e),
    }
}

/// The backend that discovers tasks declared in a `jakefile.js`.
pub struct JakeRunner {
    tasks: Vec<String>,
}

impl JakeRunner {
    /// The discovered task names, as sequences of characters.
    pub closed spec fn tasks_view(&self) -> Seq<Seq<char>> {
        self.tasks.deep_view()
    }

    /// A runner that has not discovered anything yet.
    pub fn new() -> (r: JakeRunner)
        ensures
            r.tasks_view() == Seq::<Seq<char>>::empty(),
    {
        let r = JakeRunner { tasks: Vec::new() };
        proof {
            assert(r.tasks_view() =~= Seq::<Seq<char>>::empty());
        }
        r
    }

    /// The backend's display name.
    pub fn name(&self) -> (r: &'static str)
        ensures
            r@ == "jake"@,
    {
        "jake"
    }

    /// The discovered task names, in source order.
    pub fn tasks(&self) -> (r: &Vec<String>)
        ensures
            r.deep_view() == self.tasks_view(),
    {
        &self.tasks
    }

    /// Discovers tasks from the text of the entry file, handed in by the
    /// caller: `None` when the file does not exist — a successful, empty
    /// result — and `Some` of its contents otherwise. A text that does not
    /// parse is an error naming the entry file; the task list then stays
    /// unchanged.
    pub fn load_from_source(&mut self, source: Option<&str>) -> (r: Result<(), RtError>)
        ensures
            match source {
                None => r is Ok && final(self).tasks_view() == Seq::<Seq<char>>::empty(),
                Some(src) => match js_top_items_of(src@) {
                    Some(items) => r is Ok && final(self).tasks_view() == task_names_spec(
                        items,
                        "task"@,
                    ),
                    None => r is Err && final(self).tasks_view() == old(self).tasks_view() && (
                    r->Err_0 matches RtError::Malformed { path, .. } && path@
                        == "jakefile.js"@),
                },
            },
    {
        let src = match source {
            None => {
                self.tasks = Vec::new();
                proof {
                    assert(self.tasks_view() =~= Seq::<Seq<char>>::empty());
                }
                return Ok(());
            },
            Some(s) => s,
        };
        match source_task_names(src) {
            Ok(tasks) => {
                self.tasks = tasks;
                Ok(())
            },
            Err(detail) => Err(
                RtError::Malformed { path: String::from_str("jakefile.js"), detail },
            ),
        }
    }
}

impl JakeRunner {
    /// Decides the command that runs `task`: the project-local `jake` tool,
    /// handed the task name alone.
    pub fn command_plan(&self, task: &str) -> (r: CommandPlan)
        ensures
            r.program@ == "./node_modules/.bin/jake"@,
            r.args.deep_view() == seq![task@],
    {
        let mut args: Vec<String> = Vec::new();
        args.push(String::from_str(task));
        proof {
            assert(args.deep_view() =~= seq![task@]);
        }
        CommandPlan { program: String::from_str("./node_modules/.bin/jake"), args }
    }
}

/// Discovery is idempotent: the declared task names are a pure function of
/// the source text, so two discovery passes over an unchanged entry file
/// yield identical task lists. The loader's contract pins its task list to
/// `task_names_spec` over the parsed top-level items.
pub proof fn lemma_source_discovery_idempotent(
    src: Seq<char>,
    first: Seq<Seq<char>>,
    second: Seq<Seq<char>>,
)
    requires
        js_top_items_of(src) is Some,
        first == task_names_spec(js_top_items_of(src)->0, "task"@),
        second == task_names_spec(js_top_items_of(src)->0, "task"@),
    ensures
        first == second,
{
}

} // verus!
