//! The literal resolver: a per-file scope of identifier-to-literal
//! bindings, best-effort evaluation of expressions to literal strings,
//! and the declaration walk that fills the scope.
//!
//! The scope is one flat mapping per file: a later binding for a name
//! shadows an earlier one, a deliberate flow-insensitive approximation.

use vstd::prelude::*;
use vstd::string::*;

use crate::ast::Block;
use crate::ast::Declaration;
use crate::ast::Expression;
use crate::ast::ImportSpec;
use crate::ast::SourceFile;
use crate::ast::Statement;
use crate::ast::TopLevelDecl;
use crate::ast::StringLit;
use crate::text::str_eq;

verus! {

/// Identifier-to-literal bindings for one file traversal.
pub struct Scope {
    entries: Vec<(String, String)>,
}

/// The mapping denoted by the binding list: later entries shadow
/// earlier ones.
pub open spec fn map_of(entries: Seq<(String, String)>) -> Map<Seq<char>, Seq<char>>
    decreases entries.len(),
{
    if entries.len() == 0 {
        Map::empty()
    } else {
        map_of(entries.drop_last()).insert(entries.last().0@, entries.last().1@)
    }
}

impl View for Scope {
    type V = Map<Seq<char>, Seq<char>>;

    closed spec fn view(&self) -> Map<Seq<char>, Seq<char>> {
        map_of(self.entries@)
    }
}

proof fn lemma_map_of_hit(entries: Seq<(String, String)>, j: int, k: Seq<char>)
    requires
        0 <= j < entries.len(),
        entries[j].0@ == k,
        forall|i: int| j < i < entries.len() ==> (#[trigger] entries[i]).0@ != k,
    ensures
        map_of(entries).contains_key(k),
        map_of(entries)[k] == entries[j].1@,
    decreases entries.len(),
{
    if j == entries.len() - 1 {
    } else {
        lemma_map_of_hit(entries.drop_last(), j, k);
    }
}

proof fn lemma_map_of_miss(entries: Seq<(String, String)>, k: Seq<char>)
    requires
        forall|i: int| 0 <= i < entries.len() ==> (#[trigger] entries[i]).0@ != k,
    ensures
        !map_of(entries).contains_key(k),
    decreases entries.len(),
{
    if entries.len() > 0 {
        lemma_map_of_miss(entries.drop_last(), k);
    }
}

impl Scope {
    /// An empty scope.
    pub fn new() -> (r: Self)
        ensures
            r@ == Map::<Seq<char>, Seq<char>>::empty(),
    {
        Scope { entries: Vec::new() }
    }

    /// Records a binding, shadowing any earlier one for the same name.
    pub fn insert(&mut self, name: String, value: String)
        ensures
            final(self)@ == old(self)@.insert(name@, value@),
    {
        let ghost before = self.entries@;
        self.entries.push((name, value));
        proof {
            assert(self.entries@.drop_last() =~= before);
        }
    }

    /// Looks a name up; the latest binding wins.
    pub fn get(&self, name: &str) -> (r: Option<String>)
        ensures
            r.deep_view() == if self@.contains_key(name@) {
                Some(self@[name@])
            } else {
                None::<Seq<char>>
            },
    {
        let n = self.entries.len();
        let mut j: usize = n;
        while j > 0
            invariant
                n == self.entries@.len(),
                j <= n,
                forall|i: int| j <= i < n ==> (#[trigger] self.entries@[i]).0@ != name@,
            decreases j,
        {
            j = j - 1;
            if str_eq(self.entries[j].0.as_str(), name) {
                proof {
                    lemma_map_of_hit(self.entries@, j as int, name@);
                }
                return Some(self.entries[j].1.clone());
            }
        }
        proof {
            lemma_map_of_miss(self.entries@, name@);
        }
        None
    }
}

/// The delimiter-stripped content of a quoted literal's text.
pub open spec fn unquote_spec(s: Seq<char>) -> Option<Seq<char>> {
    if s.len() >= 2 {
        Some(s.subrange(1, s.len() - 1))
    } else {
        None
    }
}

/// The literal a string-literal node denotes: its text with the
/// surrounding delimiters stripped, for both the raw and the
/// interpreted form.
pub open spec fn string_lit_value(l: &StringLit) -> Option<Seq<char>> {
    if l.raw_string_lit is Some {
        unquote_spec(l.raw_string_lit->Some_0@)
    } else if l.interpreted_string_lit is Some {
        unquote_spec(l.interpreted_string_lit->Some_0@)
    } else {
        None
    }
}

/// What `eval` returns: the bound value for a bare identifier, the
/// unquoted content for a string literal, and `None` for everything
/// else (calls, selectors, numeric and composite expressions).
pub open spec fn eval_spec(m: Map<Seq<char>, Seq<char>>, e: &Expression) -> Option<Seq<char>> {
    if e.unary_expr is Some {
        let p = e.unary_expr->Some_0.primary_expr;
        if p.operand is Some && p.selector is None && p.arguments is None && p.method_expr
            is None {
            let op = p.operand->Some_0;
            if op.operand_name is Some {
                let name = op.operand_name->Some_0.identifier@;
                if m.contains_key(name) {
                    Some(m[name])
                } else {
                    None
                }
            } else if op.literal is Some {
                string_lit_value(&op.literal->Some_0.basic_lit.string_lit)
            } else {
                None
            }
        } else {
            None
        }
    } else {
        None
    }
}

fn unquote(s: &str) -> (r: Option<String>)
    ensures
        r.deep_view() == unquote_spec(s@),
{
    let n = s.unicode_len();
    if n >= 2 {
        Some(s.substring_char(1, n - 1).to_owned())
    } else {
        None
    }
}

fn string_lit_text(l: &StringLit) -> (r: Option<String>)
    ensures
        r.deep_view() == string_lit_value(l),
{
    match &l.raw_string_lit {
        Some(s) => unquote(s.as_str()),
        None => match &l.interpreted_string_lit {
            Some(s) => unquote(s.as_str()),
            None => None,
        },
    }
}

/// Evaluates an expression to a literal string, if the scope allows it.
pub fn eval(scope: &Scope, e: &Expression) -> (r: Option<String>)
    ensures
        r.deep_view() == eval_spec(scope@, e),
{
    match &e.unary_expr {
        Some(u) => {
            let p = &u.primary_expr;
            if p.selector.is_some() || p.arguments.is_some() || p.method_expr.is_some() {
                return None;
            }
            match &p.operand {
                Some(op) => match &op.operand_name {
                    Some(n) => scope.get(n.identifier.as_str()),
                    None => match &op.literal {
                        Some(l) => string_lit_text(&l.basic_lit.string_lit),
                        None => None,
                    },
                },
                None => None,
            }
        },
        None => None,
    }
}

/// The character offset of the operand a resolvable expression is
/// built from: where a diagnostic about the expression anchors.
pub open spec fn expr_loc(e: Expression) -> int {
    e.unary_expr->Some_0.primary_expr.operand->Some_0.loc as int
}

/// Evaluates an expression and hands back its operand's offset with the
/// value; a resolvable expression always carries one.
pub fn eval_with_loc(scope: &Scope, e: &Expression) -> (r: Option<(String, usize)>)
    ensures
        match r {
            Some(v) => eval_spec(scope@, e) == Some(v.0@) && v.1 as int == expr_loc(*e),
            None => eval_spec(scope@, e) is None,
        },
{
    match eval(scope, e) {
        Some(v) => match &e.unary_expr {
            Some(u) => match &u.primary_expr.operand {
                Some(op) => Some((v, op.loc)),
                None => None,
            },
            None => None,
        },
        None => None,
    }
}

/// The scope after binding `name` to the evaluation of `e`: unchanged
/// when the evaluation fails.
pub open spec fn bind_one(
    m: Map<Seq<char>, Seq<char>>,
    name: Seq<char>,
    e: &Expression,
) -> Map<Seq<char>, Seq<char>> {
    match eval_spec(m, e) {
        Some(v) => m.insert(name, v),
        None => m,
    }
}

/// Binds `name` to the evaluation of `e`; a failed evaluation records
/// nothing.
pub fn bind(scope: &mut Scope, name: &str, e: &Expression)
    ensures
        final(scope)@ == bind_one(old(scope)@, name@, e),
{
    match eval(scope, e) {
        Some(v) => {
            scope.insert(name.to_owned(), v);
        },
        None => {},
    }
}

/// The scope after positionally binding a declaration's names to its
/// expressions, left to right.
pub open spec fn bind_pairs(
    m: Map<Seq<char>, Seq<char>>,
    names: Seq<String>,
    exprs: Seq<Expression>,
) -> Map<Seq<char>, Seq<char>>
    decreases names.len(),
{
    if names.len() == 0 || exprs.len() == 0 {
        m
    } else {
        bind_pairs(bind_one(m, names[0]@, &exprs[0]), names.drop_first(), exprs.drop_first())
    }
}

proof fn lemma_bind_pairs_snoc(
    m: Map<Seq<char>, Seq<char>>,
    names: Seq<String>,
    exprs: Seq<Expression>,
    i: int,
)
    requires
        0 <= i < names.len(),
        i < exprs.len(),
    ensures
        bind_pairs(m, names.subrange(0, i + 1), exprs.subrange(0, i + 1)) == bind_one(
            bind_pairs(m, names.subrange(0, i), exprs.subrange(0, i)),
            names[i]@,
            &exprs[i],
        ),
    decreases i,
{
    if i == 0 {
        assert(names.subrange(0, 1).drop_first() =~= Seq::<String>::empty());
        assert(exprs.subrange(0, 1).drop_first() =~= Seq::<Expression>::empty());
        assert(names.subrange(0, 0) =~= Seq::<String>::empty());
        assert(exprs.subrange(0, 0) =~= Seq::<Expression>::empty());
        assert(names.subrange(0, 1)[0] == names[0]);
        assert(exprs.subrange(0, 1)[0] == exprs[0]);
        assert(bind_pairs(
            bind_one(m, names[0]@, &exprs[0]),
            Seq::<String>::empty(),
            Seq::<Expression>::empty(),
        ) == bind_one(m, names[0]@, &exprs[0]));
        assert(bind_pairs(m, Seq::<String>::empty(), Seq::<Expression>::empty()) == m);
    } else {
        let m1 = bind_one(m, names[0]@, &exprs[0]);
        let nd = names.drop_first();
        let ed = exprs.drop_first();
        lemma_bind_pairs_snoc(m1, nd, ed, i - 1);
        let ns1 = names.subrange(0, i + 1);
        let es1 = exprs.subrange(0, i + 1);
        let ns0 = names.subrange(0, i);
        let es0 = exprs.subrange(0, i);
        assert(ns1[0] == names[0]);
        assert(es1[0] == exprs[0]);
        assert(ns0[0] == names[0]);
        assert(es0[0] == exprs[0]);
        assert(ns1.drop_first() =~= nd.subrange(0, i));
        assert(es1.drop_first() =~= ed.subrange(0, i));
        assert(ns0.drop_first() =~= nd.subrange(0, i - 1));
        assert(es0.drop_first() =~= ed.subrange(0, i - 1));
        assert(nd[i - 1] == names[i]);
        assert(ed[i - 1] == exprs[i]);
        assert(bind_pairs(m, ns1, es1) == bind_pairs(
            bind_one(m, ns1[0]@, &es1[0]),
            ns1.drop_first(),
            es1.drop_first(),
        ));
        assert(bind_one(m, ns1[0]@, &es1[0]) == m1);
        assert(bind_pairs(m, ns1, es1) == bind_pairs(m1, nd.subrange(0, i), ed.subrange(0, i)));
        assert(bind_pairs(m1, nd.subrange(0, i), ed.subrange(0, i)) == bind_one(
            bind_pairs(m1, nd.subrange(0, i - 1), ed.subrange(0, i - 1)),
            nd[i - 1]@,
            &ed[i - 1],
        ));
        assert(bind_pairs(m, ns0, es0) == bind_pairs(m1, nd.subrange(0, i - 1), ed.subrange(
            0,
            i - 1,
        )));
    }
}

fn bind_list(scope: &mut Scope, names: &Vec<String>, exprs: &Vec<Expression>)
    ensures
        final(scope)@ == bind_pairs(old(scope)@, names@, exprs@),
{
    let n = if names.len() < exprs.len() {
        names.len()
    } else {
        exprs.len()
    };
    let mut i: usize = 0;
    proof {
        assert(names@.subrange(0, 0) =~= Seq::<String>::empty());
        assert(exprs@.subrange(0, 0) =~= Seq::<Expression>::empty());
    }
    while i < n
        invariant
            n == if names@.len() < exprs@.len() {
                names@.len()
            } else {
                exprs@.len()
            },
            i <= n,
            scope@ == bind_pairs(old(scope)@, names@.subrange(0, i as int), exprs@.subrange(
                0,
                i as int,
            )),
        decreases n - i,
    {
        bind(scope, names[i].as_str(), &exprs[i]);
        proof {
            lemma_bind_pairs_snoc(old(scope)@, names@, exprs@, i as int);
        }
        i = i + 1;
    }
    proof {
        lemma_bind_pairs_stops(old(scope)@, names@, exprs@, n as int);
    }
}

/// The final segment of a slash-separated path.
pub open spec fn last_segment(p: Seq<char>) -> Seq<char>
    decreases p.len(),
{
    if p.len() == 0 {
        p
    } else if p.last() == '/' {
        Seq::empty()
    } else {
        last_segment(p.drop_last()).push(p.last())
    }
}

proof fn lemma_last_segment(p: Seq<char>, b: int)
    requires
        0 <= b <= p.len(),
        b == 0 || p[b - 1] == '/',
        forall|k: int| b <= k < p.len() ==> p[k] != '/',
    ensures
        last_segment(p) == p.subrange(b, p.len() as int),
    decreases p.len(),
{
    if b == p.len() {
        if p.len() == 0 {
            assert(p.subrange(0, 0) =~= p);
        } else {
            assert(p.subrange(b, p.len() as int) =~= Seq::<char>::empty());
        }
    } else {
        assert(p.last() != '/');
        lemma_last_segment(p.drop_last(), b);
        assert(p.drop_last().subrange(b, p.drop_last().len() as int) =~= p.subrange(
            b,
            p.len() - 1,
        ));
        assert(p.subrange(b, p.len() - 1).push(p.last()) =~= p.subrange(b, p.len() as int));
    }
}

/// The final slash-separated segment of `p`.
pub fn path_last_segment(p: &str) -> (r: String)
    ensures
        r@ == last_segment(p@),
{
    let n = p.unicode_len();
    let mut b: usize = n;
    while b > 0 && p.get_char(b - 1) != '/'
        invariant
            n == p@.len(),
            b <= n,
            forall|k: int| b <= k < n ==> p@[k] != '/',
        decreases b,
    {
        b = b - 1;
    }
    proof {
        lemma_last_segment(p@, b as int);
    }
    p.substring_char(b, n).to_owned()
}

/// The name/value pair an import specifier records: the alias, or the
/// path's last segment, bound to the full unquoted path.
pub open spec fn import_binding(s: ImportSpec) -> Option<(Seq<char>, Seq<char>)> {
    match string_lit_value(&s.import_path.string_lit) {
        Some(path) => {
            let name = match s.alias {
                Some(a) => a@,
                None => last_segment(path),
            };
            Some((name, path))
        },
        None => None,
    }
}

/// The scope after visiting one import specifier.
pub open spec fn scope_after_import(
    m: Map<Seq<char>, Seq<char>>,
    s: ImportSpec,
) -> Map<Seq<char>, Seq<char>> {
    match import_binding(s) {
        Some(b) => m.insert(b.0, b.1),
        None => m,
    }
}

/// The scope after visiting the import specifiers in order.
pub open spec fn scope_after_imports(
    m: Map<Seq<char>, Seq<char>>,
    specs: Seq<ImportSpec>,
) -> Map<Seq<char>, Seq<char>>
    decreases specs.len(),
{
    if specs.len() == 0 {
        m
    } else {
        scope_after_import(
            scope_after_imports(m, specs.subrange(0, specs.len() - 1)),
            specs[specs.len() - 1],
        )
    }
}

/// The scope after a constant or variable declaration group.
pub open spec fn scope_after_declaration(
    m: Map<Seq<char>, Seq<char>>,
    d: Declaration,
) -> Map<Seq<char>, Seq<char>> {
    let m1 = if d.const_decl is Some {
        bind_pairs(
            m,
            d.const_decl->Some_0.const_spec.identifier_list@,
            d.const_decl->Some_0.const_spec.expression_list@,
        )
    } else {
        m
    };
    if d.var_decl is Some {
        bind_pairs(
            m1,
            d.var_decl->Some_0.var_spec.identifier_list@,
            d.var_decl->Some_0.var_spec.expression_list@,
        )
    } else {
        m1
    }
}

/// The scope after one statement, recursing into `if` blocks.
pub open spec fn scope_after_stmt(
    m: Map<Seq<char>, Seq<char>>,
    s: Statement,
) -> Map<Seq<char>, Seq<char>>
    decreases s,
{
    let m1 = if s.declaration is Some {
        scope_after_declaration(m, s.declaration->Some_0)
    } else {
        m
    };
    let m2 = if s.simple_stmt is Some && s.simple_stmt->Some_0.short_var_decl is Some {
        bind_pairs(
            m1,
            s.simple_stmt->Some_0.short_var_decl->Some_0.identifier_list@,
            s.simple_stmt->Some_0.short_var_decl->Some_0.expression_list@,
        )
    } else {
        m1
    };
    if s.if_stmt is Some {
        scope_after_stmts(m2, s.if_stmt->Some_0.block.statement_list.statements@)
    } else {
        m2
    }
}

/// The scope after a statement sequence, in order.
pub open spec fn scope_after_stmts(
    m: Map<Seq<char>, Seq<char>>,
    stmts: Seq<Statement>,
) -> Map<Seq<char>, Seq<char>>
    decreases stmts,
{
    if stmts.len() == 0 {
        m
    } else {
        scope_after_stmt(
            scope_after_stmts(m, stmts.subrange(0, stmts.len() - 1)),
            stmts[stmts.len() - 1],
        )
    }
}

/// The scope after one top-level declaration, recursing into function
/// and method bodies.
pub open spec fn scope_after_top_decl(
    m: Map<Seq<char>, Seq<char>>,
    d: TopLevelDecl,
) -> Map<Seq<char>, Seq<char>> {
    let m1 = if d.declaration is Some {
        scope_after_declaration(m, d.declaration->Some_0)
    } else {
        m
    };
    let m2 = if d.function_decl is Some {
        scope_after_stmts(
            m1,
            d.function_decl->Some_0.function_body.block.statement_list.statements@,
        )
    } else {
        m1
    };
    if d.method_decl is Some {
        scope_after_stmts(m2, d.method_decl->Some_0.function_body.block.statement_list.statements@)
    } else {
        m2
    }
}

/// The scope after the top-level declarations, in order.
pub open spec fn scope_after_top_decls(
    m: Map<Seq<char>, Seq<char>>,
    ds: Seq<TopLevelDecl>,
) -> Map<Seq<char>, Seq<char>>
    decreases ds.len(),
{
    if ds.len() == 0 {
        m
    } else {
        scope_after_top_decl(scope_after_top_decls(m, ds.subrange(0, ds.len() - 1)), ds[ds.len()
            - 1])
    }
}

/// The scope a full pre-order file traversal produces: imports first,
/// then every declaration, in source order.
pub open spec fn scope_after_file(
    m: Map<Seq<char>, Seq<char>>,
    f: SourceFile,
) -> Map<Seq<char>, Seq<char>> {
    scope_after_top_decls(scope_after_imports(m, f.import_decl.import_spec@), f.top_level_decls@)
}

/// Visits one import specifier, binding its name to the import path.
pub fn bind_import_spec(scope: &mut Scope, s: &ImportSpec)
    ensures
        final(scope)@ == scope_after_import(old(scope)@, *s),
{
    match string_lit_text(&s.import_path.string_lit) {
        Some(path) => {
            let name = match &s.alias {
                Some(a) => a.clone(),
                None => path_last_segment(path.as_str()),
            };
            scope.insert(name, path);
        },
        None => {},
    }
}

fn bind_declaration(scope: &mut Scope, d: &Declaration)
    ensures
        final(scope)@ == scope_after_declaration(old(scope)@, *d),
{
    if let Some(c) = &d.const_decl {
        bind_list(scope, &c.const_spec.identifier_list, &c.const_spec.expression_list);
    }
    if let Some(v) = &d.var_decl {
        bind_list(scope, &v.var_spec.identifier_list, &v.var_spec.expression_list);
    }
}

fn bind_stmt(scope: &mut Scope, s: &Statement)
    ensures
        final(scope)@ == scope_after_stmt(old(scope)@, *s),
    decreases *s,
{
    if let Some(d) = &s.declaration {
        bind_declaration(scope, d);
    }
    if let Some(ss) = &s.simple_stmt {
        if let Some(svd) = &ss.short_var_decl {
            bind_list(scope, &svd.identifier_list, &svd.expression_list);
        }
    }
    if let Some(i) = &s.if_stmt {
        bind_block(scope, &i.block);
    }
}

fn bind_block(scope: &mut Scope, b: &Block)
    ensures
        final(scope)@ == scope_after_stmts(old(scope)@, b.statement_list.statements@),
    decreases *b,
{
    let stmts = &b.statement_list.statements;
    let n = stmts.len();
    let mut i: usize = 0;
    proof {
        assert(stmts@.subrange(0, 0) =~= Seq::<Statement>::empty());
    }
    while i < n
        invariant
            n == stmts@.len(),
            i <= n,
            scope@ == scope_after_stmts(old(scope)@, stmts@.subrange(0, i as int)),
            stmts@ == b.statement_list.statements@,
        decreases n - i,
    {
        bind_stmt(scope, &stmts[i]);
        proof {
            let t = stmts@.subrange(0, i + 1);
            assert(t.subrange(0, t.len() - 1) =~= stmts@.subrange(0, i as int));
            assert(t[t.len() - 1] == stmts@[i as int]);
        }
        i = i + 1;
    }
    proof {
        assert(stmts@.subrange(0, n as int) =~= stmts@);
    }
}

/// Walks a whole file in pre-order, recording every binding that the
/// resolver's rules can later consult.
pub fn bind_source_file(scope: &mut Scope, f: &SourceFile)
    ensures
        final(scope)@ == scope_after_file(old(scope)@, *f),
{
    let specs = &f.import_decl.import_spec;
    let mut i: usize = 0;
    proof {
        assert(specs@.subrange(0, 0) =~= Seq::<ImportSpec>::empty());
    }
    while i < specs.len()
        invariant
            i <= specs@.len(),
            scope@ == scope_after_imports(old(scope)@, specs@.subrange(0, i as int)),
            specs@ == f.import_decl.import_spec@,
        decreases specs@.len() - i,
    {
        bind_import_spec(scope, &specs[i]);
        proof {
            let t = specs@.subrange(0, i + 1);
            assert(t.subrange(0, t.len() - 1) =~= specs@.subrange(0, i as int));
            assert(t[t.len() - 1] == specs@[i as int]);
        }
        i = i + 1;
    }
    proof {
        assert(specs@.subrange(0, specs@.len() as int) =~= specs@);
    }
    let ds = &f.top_level_decls;
    let mut j: usize = 0;
    proof {
        assert(ds@.subrange(0, 0) =~= Seq::<TopLevelDecl>::empty());
    }
    while j < ds.len()
        invariant
            j <= ds@.len(),
            scope@ == scope_after_top_decls(
                scope_after_imports(old(scope)@, f.import_decl.import_spec@),
                ds@.subrange(0, j as int),
            ),
            ds@ == f.top_level_decls@,
        decreases ds@.len() - j,
    {
        let d = &ds[j];
        if let Some(decl) = &d.declaration {
            bind_declaration(scope, decl);
        }
        if let Some(fd) = &d.function_decl {
            bind_block(scope, &fd.function_body.block);
        }
        if let Some(md) = &d.method_decl {
            bind_block(scope, &md.function_body.block);
        }
        proof {
            let t = ds@.subrange(0, j + 1);
            assert(t.subrange(0, t.len() - 1) =~= ds@.subrange(0, j as int));
            assert(t[t.len() - 1] == ds@[j as int]);
        }
        j = j + 1;
    }
    proof {
        assert(ds@.subrange(0, ds@.len() as int) =~= ds@);
    }
}

proof fn lemma_bind_pairs_stops(
    m: Map<Seq<char>, Seq<char>>,
    names: Seq<String>,
    exprs: Seq<Expression>,
    n: int,
)
    requires
        n == if names.len() < exprs.len() {
            names.len() as int
        } else {
            exprs.len() as int
        },
    ensures
        bind_pairs(m, names.subrange(0, n), exprs.subrange(0, n)) == bind_pairs(m, names, exprs),
    decreases n,
{
    if n == 0 {
        assert(names.subrange(0, 0) =~= Seq::<String>::empty());
        assert(exprs.subrange(0, 0) =~= Seq::<Expression>::empty());
        if names.len() == 0 || exprs.len() == 0 {
        }
    } else {
        let m1 = bind_one(m, names[0]@, &exprs[0]);
        lemma_bind_pairs_stops(m1, names.drop_first(), exprs.drop_first(), n - 1);
        assert(names.subrange(0, n).drop_first() =~= names.drop_first().subrange(0, n - 1));
        assert(exprs.subrange(0, n).drop_first() =~= exprs.drop_first().subrange(0, n - 1));
    }
}

} // verus!
