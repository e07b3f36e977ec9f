//! The text of compiled Boogie code: statements, blocks, procedure bodies,
//! declarations, and the whole program after its prelude.

use vstd::prelude::*;
use vstd::string::StrSliceExecFns;

use crate::bpl_code::{
    args_printable, call_printable, expr_printable, expr_text, push_expr, push_type, type_text, Block, Body, Code,
    ElseClause, FnItem, IfStmt, Item, ProcItem, Stmt,
};
use crate::text::{join, lemma_join_push, push_char, push_str};

verus! {

/// `text` with `prefix` put before each line: before every character that
/// starts a line, a newline included, and nothing after a final newline.
pub open spec fn affixed(text: Seq<char>, prefix: Seq<char>) -> Seq<char>
    decreases text.len(),
{
    if text.len() == 0 {
        Seq::empty()
    } else {
        let k = text.len() - 1;
        affixed(text.take(k), prefix) + (if k == 0 || text[k - 1] == '\n' {
            prefix
        } else {
            Seq::empty()
        }) + seq![text[k]]
    }
}

/// Appends `text` with `prefix` before each line.
pub fn push_affixed(s: &mut String, text: &str, prefix: &str)
    ensures
        final(s)@ == old(s)@ + affixed(text@, prefix@),
{
    let ghost s0 = s@;
    let n = text.unicode_len();
    let mut i: usize = 0;
    let mut at_start = true;
    while i < n
        invariant
            n == text@.len(),
            i <= n,
            at_start == (i == 0 || text@[i - 1] == '\n'),
            s@ == s0 + affixed(text@.take(i as int), prefix@),
        decreases n - i,
    {
        let c = text.get_char(i);
        if at_start {
            push_str(s, prefix);
        }
        push_char(s, c);
        proof {
            assert(text@.take(i + 1).take(i as int) =~= text@.take(i as int));
            assert(text@.take(i + 1)[i as int] == c);
            if i > 0 {
                assert(text@.take(i + 1)[i - 1] == text@[i - 1]);
            }
        }
        at_start = c == '\n';
        i = i + 1;
    }
    assert(text@.take(n as int) =~= text@);
}

/// The text of a statement.
pub open spec fn stmt_text(s: Stmt) -> Seq<char>
    decreases s,
{
    match s {
        Stmt::If(i) => if_text(i),
        Stmt::Check(c) => c.text(),
        Stmt::Label(l) => l.text(),
        Stmt::Goto(g) => g.text(),
        Stmt::Call(c) => c.text(),
        Stmt::Assign(a) => a.text(),
        Stmt::Ret => "return;"@,
    }
}

/// `if (<cond>) <block>`, then ` else ` and the else clause, if any.
pub open spec fn if_text(i: IfStmt) -> Seq<char>
    decreases i,
{
    "if ("@ + expr_text(i.cond) + ") "@ + block_text(i.then_block) + match i.else_ {
        Some(ElseClause::ElseIf(b)) => " else "@ + if_text(*b),
        Some(ElseClause::Else(b)) => " else "@ + block_text(b),
        None => Seq::empty(),
    }
}

/// Each statement followed by a newline.
pub open spec fn stmts_lines(ss: Seq<Stmt>) -> Seq<char>
    decreases ss,
{
    if ss.len() == 0 {
        Seq::empty()
    } else {
        stmts_lines(ss.subrange(0, ss.len() - 1)) + stmt_text(ss[ss.len() - 1]) + "\n"@
    }
}

/// `{`, a newline, the statements each on its own lines indented by two
/// spaces, and `}`.
pub open spec fn block_text(b: Block) -> Seq<char>
    decreases b,
{
    "{\n"@ + affixed(stmts_lines(b.stmts@), "  "@) + "}"@
}

/// Every expression of the statement can be printed.
pub open spec fn stmt_printable(s: Stmt) -> bool
    decreases s,
{
    match s {
        Stmt::If(i) => if_printable(i),
        Stmt::Check(c) => expr_printable(c.cond),
        Stmt::Call(c) => call_printable(c.call),
        Stmt::Assign(a) => expr_printable(a.lhs) && expr_printable(a.rhs),
        _ => true,
    }
}

/// Every expression of the `if` statement can be printed.
pub open spec fn if_printable(i: IfStmt) -> bool
    decreases i,
{
    expr_printable(i.cond) && block_printable(i.then_block) && match i.else_ {
        Some(ElseClause::ElseIf(b)) => if_printable(*b),
        Some(ElseClause::Else(b)) => block_printable(b),
        None => true,
    }
}

/// Every statement can be printed.
pub open spec fn stmts_printable(ss: Seq<Stmt>) -> bool
    decreases ss,
{
    ss.len() == 0 || (stmts_printable(ss.subrange(0, ss.len() - 1)) && stmt_printable(
        ss[ss.len() - 1],
    ))
}

/// Every statement of the block can be printed.
pub open spec fn block_printable(b: Block) -> bool
    decreases b,
{
    stmts_printable(b.stmts@)
}

/// The statements of a printable list are printable.
proof fn lemma_stmts_printable(ss: Seq<Stmt>, i: int)
    requires
        stmts_printable(ss),
        0 <= i < ss.len(),
    ensures
        stmt_printable(ss[i]),
    decreases ss.len(),
{
    if i < ss.len() - 1 {
        lemma_stmts_printable(ss.subrange(0, ss.len() - 1), i);
    }
}

/// Appends the text of a statement.
pub fn push_stmt(st: &Stmt, s: &mut String)
    requires
        stmt_printable(*st),
    ensures
        final(s)@ == old(s)@ + stmt_text(*st),
    decreases st,
{
    match st {
        Stmt::If(i) => {
            proof {
                assert(decreases_to!(*st => (*st)->If_0));
            }
            push_if(i, s);
        },
        Stmt::Check(c) => {
            let t = c.to_string();
            push_str(s, t.as_str());
        },
        Stmt::Label(l) => {
            let t = l.to_string();
            push_str(s, t.as_str());
        },
        Stmt::Goto(g) => {
            let t = g.to_string();
            push_str(s, t.as_str());
        },
        Stmt::Call(c) => {
            let t = c.to_string();
            push_str(s, t.as_str());
        },
        Stmt::Assign(a) => {
            let t = a.to_string();
            push_str(s, t.as_str());
        },
        Stmt::Ret => push_str(s, "return;"),
    }
}

/// Appends the text of an `if` statement.
pub fn push_if(i: &IfStmt, s: &mut String)
    requires
        if_printable(*i),
    ensures
        final(s)@ == old(s)@ + if_text(*i),
    decreases i,
{
    let ghost s0 = s@;
    push_str(s, "if (");
    push_expr(&i.cond, s);
    push_str(s, ") ");
    proof {
        assert(decreases_to!(*i => i.then_block));
    }
    push_block(&i.then_block, s);
    match &i.else_ {
        Some(ElseClause::ElseIf(b)) => {
            push_str(s, " else ");
            proof {
                assert(decreases_to!(*i => *i.else_->0->ElseIf_0));
            }
            push_if(b, s);
        },
        Some(ElseClause::Else(b)) => {
            push_str(s, " else ");
            proof {
                assert(decreases_to!(*i => i.else_->0->Else_0));
            }
            push_block(b, s);
        },
        None => {},
    }
    assert(s@ =~= s0 + if_text(*i));
}

/// Appends each statement followed by a newline.
fn push_stmts_lines(ss: &Vec<Stmt>, s: &mut String)
    requires
        stmts_printable(ss@),
    ensures
        final(s)@ == old(s)@ + stmts_lines(ss@),
    decreases ss,
{
    let ghost s0 = s@;
    let n = ss.len();
    let mut i: usize = 0;
    while i < n
        invariant
            n == ss@.len(),
            i <= n,
            stmts_printable(ss@),
            s@ == s0 + stmts_lines(ss@.subrange(0, i as int)),
        decreases n - i,
    {
        proof {
            lemma_stmts_printable(ss@, i as int);
            assert(decreases_to!(ss => ss@));
            assert(decreases_to!(ss@ => ss@[i as int]));
        }
        push_stmt(&ss[i], s);
        push_str(s, "\n");
        proof {
            let next = ss@.subrange(0, i + 1);
            assert(next.subrange(0, i as int) =~= ss@.subrange(0, i as int));
            assert(next[i as int] == ss@[i as int]);
        }
        i = i + 1;
    }
    assert(ss@.subrange(0, n as int) =~= ss@);
}

/// Appends the text of a block.
pub fn push_block(b: &Block, s: &mut String)
    requires
        block_printable(*b),
    ensures
        final(s)@ == old(s)@ + block_text(*b),
    decreases b,
{
    let ghost s0 = s@;
    let mut inner = String::new();
    proof {
        assert(decreases_to!(*b => b.stmts));
    }
    push_stmts_lines(&b.stmts, &mut inner);
    push_str(s, "{\n");
    push_affixed(s, inner.as_str(), "  ");
    push_str(s, "}");
    assert(inner@ =~= stmts_lines(b.stmts@));
    assert(s@ =~= s0 + block_text(*b));
}

/// Each local variable followed by a newline.
pub open spec fn locals_lines(vs: Seq<crate::bpl_code::LocalVar>) -> Seq<char>
    decreases vs.len(),
{
    if vs.len() == 0 {
        Seq::empty()
    } else {
        locals_lines(vs.drop_last()) + vs.last().text() + "\n"@
    }
}

/// `{`, a newline, then indented by two spaces the local variables each on
/// a line, an empty line after them if there are any, and the statements
/// each on its own lines; then `}`.
pub open spec fn body_text(b: Body) -> Seq<char> {
    "{\n"@ + affixed(
        locals_lines(b.local_vars@) + (if b.local_vars@.len() == 0 {
            Seq::empty()
        } else {
            "\n"@
        }) + stmts_lines(b.stmts@),
        "  "@,
    ) + "}"@
}

/// Appends the text of a procedure body.
pub fn push_body(b: &Body, s: &mut String)
    requires
        stmts_printable(b.stmts@),
    ensures
        final(s)@ == old(s)@ + body_text(*b),
{
    let ghost s0 = s@;
    let mut inner = String::new();
    let n = b.local_vars.len();
    let mut i: usize = 0;
    while i < n
        invariant
            n == b.local_vars@.len(),
            i <= n,
            inner@ == locals_lines(b.local_vars@.take(i as int)),
        decreases n - i,
    {
        let t = b.local_vars[i].to_string();
        push_str(&mut inner, t.as_str());
        push_str(&mut inner, "\n");
        proof {
            assert(b.local_vars@.take(i + 1).drop_last() =~= b.local_vars@.take(i as int));
        }
        i = i + 1;
    }
    assert(b.local_vars@.take(n as int) =~= b.local_vars@);
    if n > 0 {
        push_str(&mut inner, "\n");
    }
    push_stmts_lines(&b.stmts, &mut inner);
    push_str(s, "{\n");
    push_affixed(s, inner.as_str(), "  ");
    push_str(s, "}");
    assert(s@ =~= s0 + body_text(*b));
}

/// `function [<attr> ]<name>(<params>): <type>` then `;`, or its value
/// indented on the lines between ` {` and `}`.
pub open spec fn fn_item_text(f: FnItem) -> Seq<char> {
    "function "@ + match f.attr {
        Some(a) => a.text() + " "@,
        None => Seq::empty(),
    } + f.ident.text() + "("@ + f.param_vars.text() + "): "@ + type_text(f.ret) + match f.value {
        None => ";"@,
        Some(v) => " {\n"@ + affixed(expr_text(v), "  "@) + "\n}"@,
    }
}

/// `procedure [<attr> ]<name>(<params>)`, ` returns (<rets>)` if it has
/// return variables, then `;` or a newline and its body.
pub open spec fn proc_item_text(p: ProcItem) -> Seq<char> {
    proc_head_text(p) + match p.body {
        None => ";"@,
        Some(b) => "\n"@ + body_text(b),
    }
}

/// `procedure [<attr> ]<name>(<params>)`, and ` returns (<rets>)` if it
/// has return variables.
pub open spec fn proc_head_text(p: ProcItem) -> Seq<char> {
    "procedure "@ + match p.attr {
        Some(a) => a.text() + " "@,
        None => Seq::empty(),
    } + p.ident.text() + "("@ + p.param_vars.text() + ")"@ + (if p.ret_vars.vars@.len() == 0 {
        Seq::empty()
    } else {
        " returns ("@ + p.ret_vars.text() + ")"@
    })
}

/// The text of a declaration.
pub open spec fn item_text(i: Item) -> Seq<char> {
    match i {
        Item::Type(t) => t.text(),
        Item::Const(c) => c.text(),
        Item::GlobalVar(g) => g.text(),
        Item::Axiom(a) => a.text(),
        Item::Fn(f) => fn_item_text(f),
        Item::Proc(p) => proc_item_text(p),
    }
}

/// Every name and expression of the declaration can be printed.
pub open spec fn item_printable(i: Item) -> bool {
    match i {
        Item::Axiom(a) => expr_printable(a.cond),
        Item::Fn(f) => f.ident.has_text() && match f.value {
            Some(v) => expr_printable(v),
            None => true,
        },
        Item::Proc(p) => p.ident.has_text() && match p.body {
            Some(b) => stmts_printable(b.stmts@),
            None => true,
        },
        _ => true,
    }
}

/// Appends the text of a function declaration.
fn push_fn_item(f: &FnItem, s: &mut String)
    requires
        f.ident.has_text(),
        f.value matches Some(v) ==> expr_printable(v),
    ensures
        final(s)@ == old(s)@ + fn_item_text(*f),
{
    let ghost s0 = s@;
    push_str(s, "function ");
    if let Some(a) = f.attr {
        push_str(s, a.as_str());
        push_str(s, " ");
    }
    f.ident.push_text(s);
    push_str(s, "(");
    f.param_vars.push_text(s);
    push_str(s, "): ");
    push_type(&f.ret, s);
    let ghost s1 = s@;
    match &f.value {
        None => push_str(s, ";"),
        Some(v) => {
            push_str(s, " {\n");
            let x = v.to_string();
            push_affixed(s, x.as_str(), "  ");
            push_str(s, "\n}");
        },
    }
    assert(s@ =~= s0 + fn_item_text(*f));
}

/// Appends the text of a procedure declaration.
fn push_proc_item(p: &ProcItem, s: &mut String)
    requires
        p.ident.has_text(),
        p.body matches Some(b) ==> stmts_printable(b.stmts@),
    ensures
        final(s)@ == old(s)@ + proc_item_text(*p),
{
    let ghost s0 = s@;
    push_proc_head(p, s);
    let ghost s1 = s@;
    match &p.body {
        None => push_str(s, ";"),
        Some(b) => {
            push_str(s, "\n");
            push_body(b, s);
        },
    }
    assert(s@ =~= s0 + proc_item_text(*p));
}

/// Appends the head of a procedure declaration.
fn push_proc_head(p: &ProcItem, s: &mut String)
    requires
        p.ident.has_text(),
    ensures
        final(s)@ == old(s)@ + proc_head_text(*p),
{
    let ghost s0 = s@;
    push_str(s, "procedure ");
    if let Some(a) = p.attr {
        let x = a.to_string();
        push_str(s, x.as_str());
        push_str(s, " ");
    }
    p.ident.push_text(s);
    push_str(s, "(");
    p.param_vars.push_text(s);
    push_str(s, ")");
    if p.ret_vars.vars.len() > 0 {
        push_str(s, " returns (");
        p.ret_vars.push_text(s);
        push_str(s, ")");
    }
    assert(s@ =~= s0 + proc_head_text(*p));
}

/// Appends the text of a declaration.
pub fn push_item(i: &Item, s: &mut String)
    requires
        item_printable(*i),
    ensures
        final(s)@ == old(s)@ + item_text(*i),
{
    let ghost s0 = s@;
    match i {
        Item::Type(t) => {
            let x = t.to_string();
            push_str(s, x.as_str());
        },
        Item::Const(c) => {
            let x = c.to_string();
            push_str(s, x.as_str());
        },
        Item::GlobalVar(g) => {
            let x = g.to_string();
            push_str(s, x.as_str());
        },
        Item::Axiom(a) => {
            let x = a.to_string();
            push_str(s, x.as_str());
        },
        Item::Fn(f) => push_fn_item(f, s),
        Item::Proc(p) => push_proc_item(p, s),
    }
    assert(s@ =~= s0 + item_text(*i));
}

/// The texts of the declarations.
pub open spec fn item_texts(items: Seq<Item>) -> Seq<Seq<char>> {
    items.map_values(|i: Item| item_text(i))
}

/// Every declaration of the code can be printed.
pub open spec fn code_printable(c: Code) -> bool {
    forall|k: int| 0 <= k < c.items@.len() ==> #[trigger] item_printable(c.items@[k])
}

/// Every declaration of the sequence can be printed.
pub open spec fn items_printable(items: Seq<Item>) -> bool {
    forall|k: int| 0 <= k < items.len() ==> #[trigger] item_printable(items[k])
}

/// Arguments that can each be printed can be printed together.
pub proof fn lemma_args_all_printable(args: Seq<crate::bpl_code::Expr>)
    requires
        forall|k: int| 0 <= k < args.len() ==> #[trigger] expr_printable(args[k]),
    ensures
        args_printable(args),
    decreases args.len(),
{
    if args.len() > 0 {
        let front = args.subrange(0, args.len() - 1);
        assert forall|k: int| 0 <= k < front.len() implies #[trigger] expr_printable(front[k]) by {
            assert(front[k] == args[k]);
        }
        lemma_args_all_printable(front);
        assert(expr_printable(args[args.len() - 1]));
    }
}

/// Statements that can each be printed can be printed together.
pub proof fn lemma_stmts_all_printable(ss: Seq<Stmt>)
    requires
        forall|k: int| 0 <= k < ss.len() ==> #[trigger] stmt_printable(ss[k]),
    ensures
        stmts_printable(ss),
    decreases ss.len(),
{
    if ss.len() > 0 {
        let front = ss.subrange(0, ss.len() - 1);
        assert forall|k: int| 0 <= k < front.len() implies #[trigger] stmt_printable(front[k]) by {
            assert(front[k] == ss[k]);
        }
        lemma_stmts_all_printable(front);
        assert(stmt_printable(ss[ss.len() - 1]));
    }
}

impl Code {
    /// The declarations separated by empty lines.
    pub open spec fn text(&self) -> Seq<char> {
        join(item_texts(self.items@), "\n\n"@)
    }

    /// The text of the code: its declarations separated by empty lines.
    pub fn to_string(&self) -> (r: String)
        requires
            code_printable(*self),
        ensures
            r@ == self.text(),
    {
        let mut s = String::new();
        let n = self.items.len();
        let mut i: usize = 0;
        while i < n
            invariant
                n == self.items@.len(),
                i <= n,
                code_printable(*self),
                s@ == join(item_texts(self.items@).take(i as int), "\n\n"@),
            decreases n - i,
        {
            if i > 0 {
                push_str(&mut s, "\n\n");
            }
            push_item(&self.items[i], &mut s);
            proof {
                let t = item_texts(self.items@);
                lemma_join_push(t.take(i as int), "\n\n"@, t[i as int]);
                assert(t.take(i as int).push(t[i as int]) =~= t.take(i + 1));
            }
            i = i + 1;
        }
        assert(item_texts(self.items@).take(n as int) =~= item_texts(self.items@));
        s
    }
}

/// The compiled Boogie program, to be printed after the prelude that
/// declares what it builds on.
pub struct BplCode {
    pub code: Code,
}

impl BplCode {
    /// The prelude, an empty line, and the code.
    pub open spec fn text(&self, prelude: Seq<char>) -> Seq<char> {
        prelude + "\n\n"@ + self.code.text()
    }

    /// The text of the program after `prelude`.
    pub fn to_string(&self, prelude: &str) -> (r: String)
        requires
            code_printable(self.code),
        ensures
            r@ == self.text(prelude@),
    {
        let mut s = String::new();
        push_str(&mut s, prelude);
        push_str(&mut s, "\n\n");
        let c = self.code.to_string();
        push_str(&mut s, c.as_str());
        s
    }
}

} // verus!
