//! The emitter: renders a syntax tree as C++ text.

use vstd::prelude::*;
use vstd::string::StringExecFns;
use crate::ast::{
    boxed_nodes_of, cases_of, entries_of, node_of, nodes_of, params_of, records_of, BinOp, BitOp,
    CompareOp, Expr, Node, UnaryOp,
};
use crate::render::{
    alias_nesting, alias_text, bin_symbol, binding_text, bit_symbol, block_nesting, block_text,
    body_text, cases_nesting, cases_text, compare_symbol, constraint_text, entries_nesting,
    entries_text, extend_args, extend_nesting, extend_text, function_text, generic_text,
    is_qualified, is_value_kind, lemma_block_nesting, lemma_cases_nesting, lemma_entries_nesting,
    line, nesting, param_text, param_type_texts, params_text, qualified_nesting, qualified_text,
    qualifier, record_members_text, stmt_text, template_text, type_marker, type_text, type_texts,
    unary_symbol, value_text, value_texts, PRELUDE, Settings,
};
use crate::text::{join, lemma_join_step, push_int, push_scoped, push_spaces, spaces, text_eq};

verus! {

/// The texts that a vector of strings holds.
pub open spec fn string_views(parts: Seq<String>) -> Seq<Seq<char>> {
    Seq::new(parts.len(), |i: int| parts[i]@)
}

/// The parts in order, with `sep` between each two neighbours.
pub fn join_strings(parts: &Vec<String>, sep: &str) -> (out: String)
    ensures
        out@ == join(string_views(parts@), sep@),
{
    let mut out = String::new();
    let mut i: usize = 0;
    let ghost texts = string_views(parts@);
    while i < parts.len()
        invariant
            i <= parts.len(),
            texts == string_views(parts@),
            out@ == join(texts.take(i as int), sep@),
        decreases parts.len() - i,
    {
        proof {
            lemma_join_step(texts, sep@, i as int);
        }
        if i > 0 {
            out.append(sep);
        }
        out.append(parts[i].as_str());
        assert(out@ =~= join(texts.take(i + 1), sep@));
        i += 1;
    }
    assert(texts.take(parts.len() as int) =~= texts);
    out
}

/// The C++ symbol of an arithmetic operator.
pub fn bin_symbol_str(op: &BinOp) -> (s: &'static str)
    ensures
        s@ == bin_symbol(*op),
{
    match op {
        BinOp::Add => "+",
        BinOp::Sub => "-",
        BinOp::Mul => "*",
        BinOp::Div => "/",
    }
}

/// The C++ symbol of a relational or logical operator.
pub fn compare_symbol_str(op: &CompareOp) -> (s: &'static str)
    ensures
        s@ == compare_symbol(*op),
{
    match op {
        CompareOp::Gt => ">",
        CompareOp::Lt => "<",
        CompareOp::Gte => ">=",
        CompareOp::Lte => "<=",
        CompareOp::Eq => "==",
        CompareOp::Neq => "!=",
        CompareOp::And => "&&",
        CompareOp::Or => "||",
    }
}

/// The C++ symbol of a prefix operator.
pub fn unary_symbol_str(op: &UnaryOp) -> (s: &'static str)
    ensures
        s@ == unary_symbol(*op),
{
    match op {
        UnaryOp::Ref => "&",
        UnaryOp::Deref => "*",
        UnaryOp::BitNot => "~",
    }
}

/// The marker that a reference or pointer type ends with.
pub fn type_marker_str(op: &UnaryOp) -> (s: &'static str)
    ensures
        s@ == type_marker(*op),
{
    match op {
        UnaryOp::Ref => "&",
        UnaryOp::Deref => "*",
        UnaryOp::BitNot => "",
    }
}

/// The infix symbol of a bitwise operator, or the builtin that a rotation calls.
pub fn bit_symbol_str(op: &BitOp) -> (s: &'static str)
    ensures
        s@ == bit_symbol(*op),
{
    match op {
        BitOp::Shl => "<<",
        BitOp::Shr => ">>",
        BitOp::And => "&",
        BitOp::Or => "|",
        BitOp::Xor => "^",
        BitOp::Rotl => "__builtin_rotateleft32",
        BitOp::Rotr => "__builtin_rotateright32",
    }
}

/// The keyword of a qualifier directive, if `name` is one.
pub fn qualifier_str(name: &str) -> (keyword: Option<&'static str>)
    ensures
        match keyword {
            Some(k) => qualifier(name@) == Some(k@),
            None => qualifier(name@) is None,
        },
{
    if text_eq(name, "const") {
        Some("constexpr")
    } else if text_eq(name, "static") {
        Some("static")
    } else if text_eq(name, "inline") {
        Some("inline")
    } else {
        None
    }
}

/// Whether a node is a qualifier directive.
pub fn is_qualifier_directive(expr: &Expr) -> (yes: bool)
    ensures
        yes == is_qualified(expr@),
{
    match expr {
        Expr::Directive(directive, _) => {
            assert(node_of(**directive) is Var <==> **directive is Var);
            match &**directive {
                Expr::Var(name) => qualifier_str(name.as_str()).is_some(),
                _ => false,
            }
        },
        _ => false,
    }
}

/// Whether a node stands for a value: the one rule for every function body.
pub fn yields_value(expr: &Expr) -> (yes: bool)
    ensures
        yes == is_value_kind(expr@),
{
    match expr {
        Expr::Int(_) => true,
        Expr::Float(_) => true,
        Expr::Bool(_) => true,
        Expr::Char(_) => true,
        Expr::String(_) => true,
        Expr::Var(_) => true,
        Expr::Bin(_, _, _) => true,
        Expr::Compare(_, _, _) => true,
        Expr::List(_) => true,
        Expr::Member(_) => true,
        Expr::Range(_, _) => true,
        Expr::Call(_, _) => true,
        Expr::Pass => true,
        Expr::TypedCall(_, _, _) => true,
        _ => false,
    }
}

/// The state of one emission pass.
#[derive(Debug, Clone)]
pub struct EmitContextImpl {
    /// The current indentation, in blanks.
    pub level: usize,
    /// The text written so far.
    pub output: String,
    /// The name of the namespace that wraps a program.
    pub module_id: String,
    /// Whether a program starts with the prelude.
    pub use_prelude: bool,
}

impl EmitContextImpl {
    /// The configuration that this context holds.
    pub open spec fn settings(&self) -> Settings {
        Settings { use_prelude: self.use_prelude, module_name: self.module_id@ }
    }

    /// An empty context at level 0, without prelude.
    pub fn new() -> (ctx: Self)
        ensures
            ctx.level == 0,
            ctx.output@ == Seq::<char>::empty(),
            ctx.module_id@ == Seq::<char>::empty(),
            !ctx.use_prelude,
    {
        EmitContextImpl {
            level: 0,
            output: String::new(),
            module_id: String::new(),
            use_prelude: false,
        }
    }

    /// Writes `code` as one line.
    pub fn emit(&mut self, code: &str)
        ensures
            final(self).output@ == old(self).output@ + line(code@),
            final(self).level == old(self).level,
            final(self).module_id == old(self).module_id,
            final(self).use_prelude == old(self).use_prelude,
    {
        self.output.append(code);
        self.output.push('\n');
        assert(self.output@ =~= old(self).output@ + line(code@));
    }

    /// The blanks of the current indentation.
    pub fn indent(&mut self) -> (blanks: String)
        ensures
            blanks@ == spaces(old(self).level as nat),
            *final(self) == *old(self),
    {
        let mut blanks = String::new();
        push_spaces(&mut blanks, self.level);
        assert(blanks@ =~= spaces(self.level as nat));
        blanks
    }
}

/// What a call wrote: `text` after the output so far, and nothing else changed.
pub open spec fn wrote(before: EmitContextImpl, after: EmitContextImpl, text: Seq<char>) -> bool {
    &&& after.output@ == before.output@ + text
    &&& after.level == before.level
    &&& after.module_id == before.module_id
    &&& after.use_prelude == before.use_prelude
}

/// The emitter with the default rules.
#[derive(Debug, Clone)]
pub struct EmitDefault {
    /// The context that `emit_program` starts from.
    pub ctx: EmitContextImpl,
}

impl EmitDefault {
    /// A node in value position.
    pub fn emit_value(&self, expr: &Expr) -> (out: String)
        ensures
            out@ == value_text(expr@),
        decreases expr, 1nat,
    {
        let mut out = String::new();
        match expr {
            Expr::Int(n) => {
                push_int(&mut out, *n);
                assert(out@ =~= value_text(expr@));
            },
            Expr::Float(text) => {
                out.append(text.as_str());
                assert(out@ =~= value_text(expr@));
            },
            Expr::Bool(b) => {
                if *b {
                    out.append("true");
                } else {
                    out.append("false");
                }
                assert(out@ =~= value_text(expr@));
            },
            Expr::Char(c) => {
                out.append("'");
                out.push(*c);
                out.append("'");
                assert(out@ =~= value_text(expr@));
            },
            Expr::String(s) => {
                out.append("\"");
                out.append(s.as_str());
                out.append("\"");
                assert(out@ =~= value_text(expr@));
            },
            Expr::Var(name) => {
                out.append(name.as_str());
                assert(out@ =~= value_text(expr@));
            },
            Expr::Member(segments) => {
                let path = self.emit_member(segments);
                out.append(path.as_str());
                assert(out@ =~= value_text(expr@));
            },
            Expr::Bin(lhs, op, rhs) => {
                let l = self.emit_value(lhs);
                let r = self.emit_value(rhs);
                out.append("(");
                out.append(l.as_str());
                out.append(" ");
                out.append(bin_symbol_str(op));
                out.append(" ");
                out.append(r.as_str());
                out.append(")");
                assert(out@ =~= value_text(expr@));
            },
            Expr::Compare(lhs, op, rhs) => {
                let l = self.emit_value(lhs);
                let r = self.emit_value(rhs);
                out.append("(");
                out.append(l.as_str());
                out.append(" ");
                out.append(compare_symbol_str(op));
                out.append(" ");
                out.append(r.as_str());
                out.append(")");
                assert(out@ =~= value_text(expr@));
            },
            Expr::Unary(operand, op) => {
                let inner = self.emit_value(operand);
                out.append(unary_symbol_str(op));
                out.append(inner.as_str());
                assert(out@ =~= value_text(expr@));
            },
            Expr::Bit(lhs, op, rhs) => {
                let l = self.emit_value(lhs);
                let r = self.emit_value(rhs);
                match op {
                    BitOp::Rotl | BitOp::Rotr => {
                        out.append(bit_symbol_str(op));
                        out.append("(");
                        out.append(l.as_str());
                        out.append(", ");
                        out.append(r.as_str());
                        out.append(")");
                    },
                    _ => {
                        out.append("(");
                        out.append(l.as_str());
                        out.append(" ");
                        out.append(bit_symbol_str(op));
                        out.append(" ");
                        out.append(r.as_str());
                        out.append(")");
                    },
                }
                assert(out@ =~= value_text(expr@));
            },
            Expr::Range(start, end) => {
                let l = self.emit_value(start);
                let r = self.emit_value(end);
                out.append("views::iota(");
                out.append(l.as_str());
                out.append(", ");
                out.append(r.as_str());
                out.append(")");
                assert(out@ =~= value_text(expr@));
            },
            Expr::List(items) => {
                let parts = self.value_strings(items);
                let elements = join_strings(&parts, ", ");
                out.append("{");
                out.append(elements.as_str());
                out.append("}");
                assert(out@ =~= value_text(expr@));
            },
            Expr::Call(callee, args) => {
                let callee_text = self.emit_value(callee);
                let parts = self.value_strings(args);
                let args_text = join_strings(&parts, ", ");
                out.append(callee_text.as_str());
                out.append("(");
                out.append(args_text.as_str());
                out.append(")");
                assert(out@ =~= value_text(expr@));
            },
            Expr::TypedCall(callee, generics, args) => {
                let callee_text = self.emit_value(callee);
                let generics_text = self.generic_string(generics);
                let parts = self.value_strings(args);
                let args_text = join_strings(&parts, ", ");
                out.append(callee_text.as_str());
                out.append(generics_text.as_str());
                out.append("(");
                out.append(args_text.as_str());
                out.append(")");
                assert(out@ =~= value_text(expr@));
            },
            Expr::Directive(directive, target) => {
                assert(node_of(**directive) is Var <==> **directive is Var);
                assert(node_of(**target) is Directive <==> **target is Directive);
                match &**directive {
                    Expr::Var(name) => {
                        match qualifier_str(name.as_str()) {
                            Some(keyword) => {
                                let value = self.emit_value(target);
                                out.append(keyword);
                                out.append(" ");
                                out.append(value.as_str());
                            },
                            None => {},
                        }
                    },
                    _ => {},
                }
                assert(out@ =~= value_text(expr@));
            },
            _ => {},
        }
        assert(out@ =~= value_text(expr@));
        out
    }

    /// The value text of each item.
    pub fn value_strings(&self, items: &Vec<Expr>) -> (parts: Vec<String>)
        ensures
            string_views(parts@) == value_texts(nodes_of(items@)),
        decreases items, 0nat,
    {
        let mut parts: Vec<String> = Vec::new();
        let mut i: usize = 0;
        while i < items.len()
            invariant
                i <= items.len(),
                parts@.len() == i,
                forall|j: int|
                    0 <= j < i ==> (#[trigger] parts@[j])@
                        == value_text(node_of(items@[j])),
            decreases items.len() - i,
        {
            let part = self.emit_value(&items[i]);
            parts.push(part);
            i += 1;
        }
        assert(string_views(parts@) =~= value_texts(nodes_of(items@)));
        parts
    }

    /// The type text of each item.
    pub fn type_strings(&self, items: &Vec<Expr>) -> (parts: Vec<String>)
        ensures
            string_views(parts@) == type_texts(nodes_of(items@)),
        decreases items, 0nat,
    {
        let mut parts: Vec<String> = Vec::new();
        let mut i: usize = 0;
        while i < items.len()
            invariant
                i <= items.len(),
                parts@.len() == i,
                forall|j: int|
                    0 <= j < i ==> (#[trigger] parts@[j])@
                        == type_text(node_of(items@[j])),
            decreases items.len() - i,
        {
            let part = self.emit_type(&items[i]);
            parts.push(part);
            i += 1;
        }
        assert(string_views(parts@) =~= type_texts(nodes_of(items@)));
        parts
    }

    /// A list of generic arguments in angle brackets; nothing for an empty list.
    pub fn generic_string(&self, args: &Vec<Expr>) -> (out: String)
        ensures
            out@ == generic_text(type_texts(nodes_of(args@))),
        decreases args, 1nat,
    {
        let mut out = String::new();
        if args.len() > 0 {
            let parts = self.type_strings(args);
            let inner = join_strings(&parts, ", ");
            out.append("<");
            out.append(inner.as_str());
            out.append(">");
        }
        assert(out@ =~= generic_text(type_texts(nodes_of(args@))));
        out
    }

    /// A dotted path: the value texts of the segments with `.` between them.
    pub fn emit_member(&self, exprs: &Vec<Expr>) -> (out: String)
        ensures
            out@ == join(value_texts(nodes_of(exprs@)), "."@),
        decreases exprs, 1nat,
    {
        let parts = self.value_strings(exprs);
        join_strings(&parts, ".")
    }

    /// A node in type position.
    pub fn emit_type(&self, ty: &Expr) -> (out: String)
        ensures
            out@ == type_text(ty@),
        decreases ty, 1nat,
    {
        let mut out = String::new();
        match ty {
            Expr::TypedSymbol(name) => {
                out.append(name.as_str());
                assert(out@ =~= type_text(ty@));
            },
            Expr::TypedVariant(lhs, rhs) => {
                assert(node_of(**rhs) is TypedVariant <==> **rhs is TypedVariant);
                let lhs_text = self.emit_type(lhs);
                let rhs_text = self.emit_type(rhs);
                match &**rhs {
                    Expr::TypedVariant(_, _) => {
                        out.append(lhs_text.as_str());
                        out.append(" | ");
                        out.append(rhs_text.as_str());
                    },
                    _ => {
                        out.append("variant<");
                        out.append(lhs_text.as_str());
                        out.append(", ");
                        out.append(rhs_text.as_str());
                        out.append(">");
                    },
                }
                assert(out@ =~= type_text(ty@));
            },
            Expr::TypedUnary(inner) => {
                assert(node_of(**inner) is Unary <==> **inner is Unary);
                match &**inner {
                    Expr::Unary(operand, op) => {
                        let operand_text = self.emit_type(operand);
                        out.append(operand_text.as_str());
                        out.append(type_marker_str(op));
                    },
                    _ => {},
                }
                assert(out@ =~= type_text(ty@));
            },
            Expr::TypedLiteral(value) => {
                let value_string = self.emit_value(value);
                out.append("decltype(");
                out.append(value_string.as_str());
                out.append(")");
                assert(out@ =~= type_text(ty@));
            },
            Expr::TypedOptional(inner) => {
                let inner_text = self.emit_type(inner);
                out.append("optional<");
                out.append(inner_text.as_str());
                out.append(">");
                assert(out@ =~= type_text(ty@));
            },
            Expr::TypedMember(path) => {
                let path_text = self.emit_value(path);
                push_scoped(&mut out, path_text.as_str());
                assert(out@ =~= type_text(ty@));
            },
            Expr::TypedSymbolGeneric(name, args) => {
                let args_text = self.generic_string(args);
                out.append(name.as_str());
                out.append(args_text.as_str());
                assert(out@ =~= type_text(ty@));
            },
            Expr::TypedFn(function) => {
                assert(node_of(**function) is Fn <==> **function is Fn);
                match &**function {
                    Expr::Fn(params, body) => {
                        assert(nodes_of(body@).len() == body@.len());
                        if body.len() > 0 {
                            assert(nodes_of(body@).last() == node_of(body@[body@.len() - 1]));
                            let parts = self.param_type_strings(params);
                            let params_string = join_strings(&parts, ", ");
                            let result = self.emit_type(&body[body.len() - 1]);
                            out.append("std::function<");
                            out.append(result.as_str());
                            out.append("(");
                            out.append(params_string.as_str());
                            out.append(")>");
                        }
                    },
                    _ => {},
                }
                assert(out@ =~= type_text(ty@));
            },
            _ => {},
        }
        assert(out@ =~= type_text(ty@));
        out
    }

    /// The type of each parameter of a function type; `void` where none is written.
    pub fn param_type_strings(&self, params: &Vec<(String, Option<Expr>)>) -> (parts: Vec<String>)
        ensures
            string_views(parts@) == param_type_texts(params_of(params@)),
        decreases params, 0nat,
    {
        let mut parts: Vec<String> = Vec::new();
        let mut i: usize = 0;
        while i < params.len()
            invariant
                i <= params.len(),
                parts@.len() == i,
                forall|j: int|
                    0 <= j < i ==> (#[trigger] parts@[j])@ == param_type_texts(
                        params_of(params@),
                    )[j],
            decreases params.len() - i,
        {
            let part = match &params[i].1 {
                Some(ty) => self.emit_type(ty),
                None => String::from_str("void"),
            };
            parts.push(part);
            i += 1;
        }
        assert(string_views(parts@) =~= param_type_texts(params_of(params@)));
        parts
    }

    /// A chain of alternatives whose first is `lhs` and whose rest is `rhs`.
    pub fn emit_variant(&self, lhs: &Expr, rhs: &Expr) -> (out: String)
        ensures
            out@ == type_text(Node::TypedVariant(Box::new(lhs@), Box::new(rhs@))),
    {
        assert(node_of(*rhs) is TypedVariant <==> *rhs is TypedVariant);
        let lhs_text = self.emit_type(lhs);
        let rhs_text = self.emit_type(rhs);
        let mut out = String::new();
        match rhs {
            Expr::TypedVariant(_, _) => {
                out.append(lhs_text.as_str());
                out.append(" | ");
                out.append(rhs_text.as_str());
            },
            _ => {
                out.append("variant<");
                out.append(lhs_text.as_str());
                out.append(", ");
                out.append(rhs_text.as_str());
                out.append(">");
            },
        }
        assert(out@ =~= type_text(Node::TypedVariant(Box::new(lhs@), Box::new(rhs@))));
        out
    }

    /// One declared parameter each: its type, where one is written, then its name.
    pub fn param_strings(&self, params: &Vec<(String, Option<Expr>)>) -> (parts: Vec<String>)
        ensures
            string_views(parts@) == Seq::new(
                params_of(params@).len(),
                |i: int| param_text(params_of(params@)[i]),
            ),
    {
        let mut parts: Vec<String> = Vec::new();
        let mut i: usize = 0;
        while i < params.len()
            invariant
                i <= params.len(),
                parts@.len() == i,
                forall|j: int|
                    0 <= j < i ==> (#[trigger] parts@[j])@ == param_text(params_of(params@)[j]),
            decreases params.len() - i,
        {
            let mut part = String::new();
            match &params[i].1 {
                Some(ty) => {
                    let ty_text = self.emit_type(ty);
                    part.append(ty_text.as_str());
                    part.append(" ");
                    part.append(params[i].0.as_str());
                },
                None => {
                    part.append("auto");
                    part.append(" ");
                    part.append(params[i].0.as_str());
                },
            }
            assert(part@ =~= param_text(params_of(params@)[i as int]));
            parts.push(part);
            i += 1;
        }
        assert(string_views(parts@) =~= Seq::new(
            params_of(params@).len(),
            |i: int| param_text(params_of(params@)[i]),
        ));
        parts
    }

    /// The parameter list of a function declaration.
    pub fn params_string(&self, params: &Vec<(String, Option<Expr>)>) -> (out: String)
        ensures
            out@ == params_text(params_of(params@)),
    {
        let parts = self.param_strings(params);
        join_strings(&parts, ", ")
    }

    /// The template header of a generic alias; nothing without parameters.
    pub fn template_string(&self, params: &Vec<Expr>) -> (out: String)
        ensures
            out@ == template_text(nodes_of(params@)),
    {
        let mut out = String::new();
        if params.len() > 0 {
            let mut parts: Vec<String> = Vec::new();
            let mut i: usize = 0;
            while i < params.len()
                invariant
                    i <= params.len(),
                    parts@.len() == i,
                    forall|j: int|
                        0 <= j < i ==> (#[trigger] parts@[j])@ == "typename "@ + type_text(
                            nodes_of(params@)[j],
                        ),
                decreases params.len() - i,
            {
                let ty_text = self.emit_type(&params[i]);
                let mut part = String::new();
                part.append("typename ");
                part.append(ty_text.as_str());
                assert(part@ =~= "typename "@ + type_text(nodes_of(params@)[i as int]));
                parts.push(part);
                i += 1;
            }
            assert(string_views(parts@) =~= Seq::new(
                nodes_of(params@).len(),
                |i: int| "typename "@ + type_text(nodes_of(params@)[i]),
            ));
            let inner = join_strings(&parts, ", ");
            out.append("template<");
            out.append(inner.as_str());
            out.append("> ");
        }
        assert(out@ =~= template_text(nodes_of(params@)));
        out
    }

    /// Writes the alias `name` for a type that is already text.
    pub fn emit_using(
        &self,
        ctx: &mut EmitContextImpl,
        name: &str,
        params: &Vec<Expr>,
        rhs_text: &str,
    )
        ensures
            wrote(
                *old(ctx),
                *final(ctx),
                line(
                    spaces(old(ctx).level as nat) + template_text(nodes_of(params@)) + "using "@
                        + name@ + " = "@ + rhs_text@ + ";"@,
                ),
            ),
    {
        let mut text = ctx.indent();
        let template = self.template_string(params);
        text.append(template.as_str());
        text.append("using ");
        text.append(name);
        text.append(" = ");
        text.append(rhs_text);
        text.append(";");
        ctx.emit(text.as_str());
    }

    /// Writes a type alias; a record on the right becomes a struct with one
    /// alias per entry.
    pub fn emit_alias(
        &self,
        ctx: &mut EmitContextImpl,
        name: &str,
        params: &Vec<Expr>,
        rhs: &Expr,
    )
        requires
            old(ctx).level + alias_nesting(rhs@) <= usize::MAX,
        ensures
            wrote(
                *old(ctx),
                *final(ctx),
                alias_text(name@, nodes_of(params@), rhs@, old(ctx).level as nat),
            ),
    {
        match rhs {
            Expr::TypedRecord(record) => {
                assert(node_of(**record) is Record <==> **record is Record);
                match &**record {
                    Expr::Record(entries) => {
                        let indent = ctx.indent();
                        let template = self.template_string(params);
                        let mut head = String::new();
                        head.append(indent.as_str());
                        head.append(template.as_str());
                        head.append("struct ");
                        head.append(name);
                        head.append(" {");
                        ctx.emit(head.as_str());
                        ctx.level += 2;
                        let ghost members = records_of(entries@);
                        let ghost start = ctx.output@;
                        let mut i: usize = 0;
                        while i < entries.len()
                            invariant
                                i <= entries.len(),
                                members == records_of(entries@),
                                ctx.level == old(ctx).level + 2,
                                ctx.module_id == old(ctx).module_id,
                                ctx.use_prelude == old(ctx).use_prelude,
                                ctx.output@ == start + record_members_text(
                                    members.take(i as int),
                                    ctx.level as nat,
                                ),
                            decreases entries.len() - i,
                        {
                            proof {
                                assert(members.take(i + 1).drop_last() =~= members.take(i as int));
                                assert(members.take(i + 1).last() == members[i as int]);
                                assert(members[i as int] == nodes_of(entries@[i as int]@));
                            }
                            let entry = &entries[i];
                            if entry.len() == 2 {
                                let key = self.emit_value(&entry[0]);
                                let ty_text = self.emit_type(&entry[1]);
                                let mut text = ctx.indent();
                                text.append("using ");
                                text.append(key.as_str());
                                text.append(" = ");
                                text.append(ty_text.as_str());
                                text.append(";");
                                ctx.emit(text.as_str());
                            }
                            assert(ctx.output@ =~= start + record_members_text(
                                members.take(i + 1),
                                ctx.level as nat,
                            ));
                            i += 1;
                        }
                        assert(members.take(entries.len() as int) =~= members);
                        ctx.level -= 2;
                        let mut foot = String::new();
                        foot.append(indent.as_str());
                        foot.append("};");
                        ctx.emit(foot.as_str());
                        assert(ctx.output@ =~= old(ctx).output@ + alias_text(
                            name@,
                            nodes_of(params@),
                            rhs@,
                            old(ctx).level as nat,
                        ));
                    },
                    _ => {
                        assert(ctx.output@ =~= old(ctx).output@ + alias_text(
                            name@,
                            nodes_of(params@),
                            rhs@,
                            old(ctx).level as nat,
                        ));
                    },
                }
            },
            _ => {
                let rhs_text = self.emit_type(rhs);
                self.emit_using(ctx, name, params, rhs_text.as_str());
            },
        }
    }

    /// The two names of a directive of the form `extend(ident, ty)`.
    pub fn extend_names<'a>(&self, directive: &'a Expr) -> (names: Option<(&'a String, &'a String)>)
        ensures
            match names {
                Some((ident, ty)) => extend_args(directive@) == Some((ident@, ty@)),
                None => extend_args(directive@) is None,
            },
    {
        match directive {
            Expr::Call(callee, args) => {
                assert(node_of(**callee) is Var <==> **callee is Var);
                assert(nodes_of(args@).len() == args@.len());
                match &**callee {
                    Expr::Var(name) => {
                        if text_eq(name.as_str(), "extend") && args.len() == 2 {
                            assert(nodes_of(args@)[0] == node_of(args@[0]));
                            assert(nodes_of(args@)[1] == node_of(args@[1]));
                            assert(node_of(args@[0]) is Var <==> args@[0] is Var);
                            assert(node_of(args@[1]) is Var <==> args@[1] is Var);
                            match (&args[0], &args[1]) {
                                (Expr::Var(ident), Expr::Var(ty)) => Some((ident, ty)),
                                _ => None,
                            }
                        } else {
                            None
                        }
                    },
                    _ => None,
                }
            },
            _ => None,
        }
    }

    /// Writes what `extend(ident, ext_ty)` makes of its target: the alias
    /// under the directives around it, with a right-hand side that is exactly
    /// `ident` replaced by the constraint. Nothing where there is no alias.
    pub fn emit_extend(&self, ctx: &mut EmitContextImpl, ident: &str, ext_ty: &str, expr: &Expr)
        requires
            old(ctx).level + extend_nesting(expr@) <= usize::MAX,
        ensures
            wrote(
                *old(ctx),
                *final(ctx),
                extend_text(expr@, ident@, ext_ty@, old(ctx).level as nat),
            ),
        decreases expr,
    {
        match expr {
            Expr::TypeAlias(name, params, rhs) => {
                assert(node_of(**rhs) is TypedSymbol <==> **rhs is TypedSymbol);
                let exact = match &**rhs {
                    Expr::TypedSymbol(symbol) => text_eq(symbol.as_str(), ident),
                    _ => false,
                };
                assert(exact == (node_of(**rhs) == Node::TypedSymbol(ident@)));
                if exact {
                    let mut constraint = String::new();
                    constraint.append("std::enable_if_t<std::is_same<");
                    constraint.append(ident);
                    constraint.append(", ");
                    constraint.append(ext_ty);
                    constraint.append(">::value, ");
                    constraint.append(ident);
                    constraint.append(">");
                    assert(constraint@ =~= constraint_text(ident@, ext_ty@));
                    self.emit_using(ctx, name.as_str(), params, constraint.as_str());
                } else {
                    self.emit_alias(ctx, name.as_str(), params, rhs);
                }
            },
            Expr::Directive(_, inner) => {
                self.emit_extend(ctx, ident, ext_ty, inner);
            },
            _ => {
                assert(ctx.output@ =~= old(ctx).output@ + extend_text(
                    expr@,
                    ident@,
                    ext_ty@,
                    old(ctx).level as nat,
                ));
            },
        }
    }

    /// Writes the statements of a block at the current level.
    pub fn emit_block(&self, ctx: &mut EmitContextImpl, items: &Vec<Expr>)
        requires
            old(ctx).level + block_nesting(nodes_of(items@)) <= usize::MAX,
        ensures
            wrote(
                *old(ctx),
                *final(ctx),
                block_text(nodes_of(items@), old(ctx).level as nat, old(ctx).settings()),
            ),
        decreases items, 0nat,
    {
        let ghost nodes = nodes_of(items@);
        let mut i: usize = 0;
        while i < items.len()
            invariant
                i <= items.len(),
                nodes == nodes_of(items@),
                old(ctx).level + block_nesting(nodes) <= usize::MAX,
                wrote(
                    *old(ctx),
                    *ctx,
                    block_text(nodes.take(i as int), old(ctx).level as nat, old(ctx).settings()),
                ),
            decreases items.len() - i,
        {
            proof {
                lemma_block_nesting(nodes, i as int);
                assert(nodes.take(i + 1).drop_last() =~= nodes.take(i as int));
                assert(nodes.take(i + 1).last() == node_of(items@[i as int]));
            }
            self.emit_expr(ctx, &items[i]);
            assert(ctx.output@ =~= old(ctx).output@ + block_text(
                nodes.take(i + 1),
                old(ctx).level as nat,
                old(ctx).settings(),
            ));
            i += 1;
        }
        assert(nodes.take(items.len() as int) =~= nodes);
    }

    /// Writes the top-level statements of a program at the current level.
    pub fn emit_items(&self, ctx: &mut EmitContextImpl, items: &Vec<Box<Expr>>)
        requires
            old(ctx).level + block_nesting(boxed_nodes_of(items@)) <= usize::MAX,
        ensures
            wrote(
                *old(ctx),
                *final(ctx),
                block_text(boxed_nodes_of(items@), old(ctx).level as nat, old(ctx).settings()),
            ),
        decreases items, 0nat,
    {
        let ghost nodes = boxed_nodes_of(items@);
        let mut i: usize = 0;
        while i < items.len()
            invariant
                i <= items.len(),
                nodes == boxed_nodes_of(items@),
                old(ctx).level + block_nesting(nodes) <= usize::MAX,
                wrote(
                    *old(ctx),
                    *ctx,
                    block_text(nodes.take(i as int), old(ctx).level as nat, old(ctx).settings()),
                ),
            decreases items.len() - i,
        {
            proof {
                lemma_block_nesting(nodes, i as int);
                assert(nodes.take(i + 1).drop_last() =~= nodes.take(i as int));
                assert(nodes.take(i + 1).last() == node_of(*items@[i as int]));
            }
            self.emit_expr(ctx, &items[i]);
            assert(ctx.output@ =~= old(ctx).output@ + block_text(
                nodes.take(i + 1),
                old(ctx).level as nat,
                old(ctx).settings(),
            ));
            i += 1;
        }
        assert(nodes.take(items.len() as int) =~= nodes);
    }

    /// Writes the body of a function at the current level: the last
    /// statement is returned where it stands for a value, and is a plain
    /// statement otherwise.
    pub fn emit_body(&self, ctx: &mut EmitContextImpl, body: &Vec<Expr>)
        requires
            old(ctx).level + block_nesting(nodes_of(body@)) <= usize::MAX,
        ensures
            wrote(
                *old(ctx),
                *final(ctx),
                body_text(nodes_of(body@), old(ctx).level as nat, old(ctx).settings()),
            ),
        decreases body, 0nat,
    {
        let ghost nodes = nodes_of(body@);
        if body.len() == 0 {
            assert(ctx.output@ =~= old(ctx).output@ + body_text(
                nodes,
                old(ctx).level as nat,
                old(ctx).settings(),
            ));
            return ;
        }
        let last_index: usize = body.len() - 1;
        let mut i: usize = 0;
        while i < last_index
            invariant
                i <= last_index,
                last_index == body.len() - 1,
                nodes == nodes_of(body@),
                old(ctx).level + block_nesting(nodes) <= usize::MAX,
                wrote(
                    *old(ctx),
                    *ctx,
                    block_text(nodes.take(i as int), old(ctx).level as nat, old(ctx).settings()),
                ),
            decreases last_index - i,
        {
            proof {
                lemma_block_nesting(nodes, i as int);
                assert(nodes.take(i + 1).drop_last() =~= nodes.take(i as int));
                assert(nodes.take(i + 1).last() == node_of(body@[i as int]));
            }
            self.emit_expr(ctx, &body[i]);
            assert(ctx.output@ =~= old(ctx).output@ + block_text(
                nodes.take(i + 1),
                old(ctx).level as nat,
                old(ctx).settings(),
            ));
            i += 1;
        }
        proof {
            lemma_block_nesting(nodes, last_index as int);
            assert(nodes.take(last_index as int) =~= nodes.drop_last());
            assert(nodes.last() == node_of(body@[last_index as int]));
        }
        let last = &body[last_index];
        if yields_value(last) {
            let value = self.emit_value(last);
            let mut text = ctx.indent();
            text.append("return ");
            text.append(value.as_str());
            text.append(";");
            ctx.emit(text.as_str());
        } else {
            self.emit_expr(ctx, last);
        }
        assert(ctx.output@ =~= old(ctx).output@ + body_text(
            nodes,
            old(ctx).level as nat,
            old(ctx).settings(),
        ));
    }

    /// Writes a function declaration at the current level: the header with
    /// the result type `result`, the body two blanks deeper, the closing brace.
    pub fn emit_function(
        &self,
        ctx: &mut EmitContextImpl,
        result: &str,
        name: &str,
        params: &Vec<(String, Option<Expr>)>,
        body: &Vec<Expr>,
    )
        requires
            old(ctx).level + 2 + block_nesting(nodes_of(body@)) <= usize::MAX,
        ensures
            wrote(
                *old(ctx),
                *final(ctx),
                function_text(
                    result@,
                    name@,
                    params_of(params@),
                    nodes_of(body@),
                    old(ctx).level as nat,
                    old(ctx).settings(),
                ),
            ),
        decreases body, 1nat,
    {
        let indent = ctx.indent();
        let params_string = self.params_string(params);
        let mut head = String::new();
        head.append(indent.as_str());
        head.append(result);
        head.append(" ");
        head.append(name);
        head.append("(");
        head.append(params_string.as_str());
        head.append(") {");
        ctx.emit(head.as_str());
        ctx.level += 2;
        self.emit_body(ctx, body);
        ctx.level -= 2;
        let mut foot = String::new();
        foot.append(indent.as_str());
        foot.append("}");
        ctx.emit(foot.as_str());
        assert(ctx.output@ =~= old(ctx).output@ + function_text(
            result@,
            name@,
            params_of(params@),
            nodes_of(body@),
            old(ctx).level as nat,
            old(ctx).settings(),
        ));
    }

    /// Writes the branches of a match at the current level, one per case.
    pub fn emit_cases(&self, ctx: &mut EmitContextImpl, cases: &Vec<(String, Vec<Expr>)>)
        requires
            old(ctx).level + cases_nesting(cases_of(cases@)) <= usize::MAX,
        ensures
            wrote(
                *old(ctx),
                *final(ctx),
                cases_text(cases_of(cases@), old(ctx).level as nat, old(ctx).settings()),
            ),
        decreases cases, 0nat,
    {
        let ghost branches = cases_of(cases@);
        let mut i: usize = 0;
        while i < cases.len()
            invariant
                i <= cases.len(),
                branches == cases_of(cases@),
                old(ctx).level + cases_nesting(branches) <= usize::MAX,
                wrote(
                    *old(ctx),
                    *ctx,
                    cases_text(branches.take(i as int), old(ctx).level as nat, old(ctx).settings()),
                ),
            decreases cases.len() - i,
        {
            proof {
                lemma_cases_nesting(branches, i as int);
                assert(branches.take(i + 1).drop_last() =~= branches.take(i as int));
                assert(branches.take(i + 1).last() == branches[i as int]);
                assert(branches[i as int] == (cases@[i as int].0@, nodes_of(cases@[i as int].1@)));
            }
            let indent = ctx.indent();
            let mut head = String::new();
            head.append(indent.as_str());
            head.append("if constexpr (std::is_same_v<T, ");
            head.append(cases[i].0.as_str());
            head.append(">) {");
            ctx.emit(head.as_str());
            ctx.level += 2;
            self.emit_block(ctx, &cases[i].1);
            ctx.level -= 2;
            let mut foot = String::new();
            foot.append(indent.as_str());
            foot.append("}");
            ctx.emit(foot.as_str());
            assert(ctx.output@ =~= old(ctx).output@ + cases_text(
                branches.take(i + 1),
                old(ctx).level as nat,
                old(ctx).settings(),
            ));
            i += 1;
        }
        assert(branches.take(cases.len() as int) =~= branches);
    }

    /// Writes the members of a struct at the current level. A field is a
    /// symbol or literal type, a method is a function, anything else is left out.
    pub fn emit_entries(&self, ctx: &mut EmitContextImpl, entries: &Vec<(String, Expr)>)
        requires
            old(ctx).level + entries_nesting(entries_of(entries@)) <= usize::MAX,
        ensures
            wrote(
                *old(ctx),
                *final(ctx),
                entries_text(entries_of(entries@), old(ctx).level as nat, old(ctx).settings()),
            ),
        decreases entries, 0nat,
    {
        let ghost members = entries_of(entries@);
        let mut i: usize = 0;
        while i < entries.len()
            invariant
                i <= entries.len(),
                members == entries_of(entries@),
                old(ctx).level + entries_nesting(members) <= usize::MAX,
                wrote(
                    *old(ctx),
                    *ctx,
                    entries_text(
                        members.take(i as int),
                        old(ctx).level as nat,
                        old(ctx).settings(),
                    ),
                ),
            decreases entries.len() - i,
        {
            proof {
                lemma_entries_nesting(members, i as int);
                assert(members.take(i + 1).drop_last() =~= members.take(i as int));
                assert(members.take(i + 1).last() == members[i as int]);
                assert(members[i as int] == (entries@[i as int].0@, node_of(entries@[i as int].1)));
            }
            let name = &entries[i].0;
            match &entries[i].1 {
                Expr::TypedSymbol(_) | Expr::TypedLiteral(_) => {
                    let ty_text = self.emit_type(&entries[i].1);
                    let mut text = ctx.indent();
                    text.append(ty_text.as_str());
                    text.append(" ");
                    text.append(name.as_str());
                    text.append(";");
                    ctx.emit(text.as_str());
                },
                Expr::Fn(params, body) => {
                    self.emit_function(ctx, "auto", name.as_str(), params, body);
                },
                _ => {},
            }
            assert(ctx.output@ =~= old(ctx).output@ + entries_text(
                members.take(i + 1),
                old(ctx).level as nat,
                old(ctx).settings(),
            ));
            i += 1;
        }
        assert(members.take(entries.len() as int) =~= members);
    }

    /// Writes a program: the prelude where it is switched on, the namespace with
    /// the statements, and the entry point.
    fn emit_program_node(&self, ctx: &mut EmitContextImpl, expr: &Expr)
        requires
            expr is Program,
            old(ctx).level + nesting(expr@) <= usize::MAX,
        ensures
            wrote(
                *old(ctx),
                *final(ctx),
                stmt_text(expr@, old(ctx).level as nat, old(ctx).settings()),
            ),
        decreases expr, 1nat,
    {
        let ghost level = old(ctx).level as nat;
        let ghost cfg = old(ctx).settings();
        match expr {
            Expr::Program(items) => {
                let module = ctx.module_id.clone();
                if ctx.use_prelude {
                    ctx.emit(PRELUDE);
                }
                ctx.emit("using namespace std;\n");
                let mut open = String::new();
                open.append("namespace ");
                open.append(module.as_str());
                open.append(" {");
                ctx.emit(open.as_str());
                self.emit_items(ctx, items);
                let mut close = String::new();
                close.append("} // namespace ");
                close.append(module.as_str());
                ctx.emit(close.as_str());
                ctx.emit("");
                let mut entry = String::new();
                entry.append("int main(int argc, const char** argv) { return ");
                entry.append(module.as_str());
                entry.append("::main(argc, std::vector<std::string>(argv + 1, argv + argc)); }");
                ctx.emit(entry.as_str());
                assert(ctx.output@ =~= old(ctx).output@ + stmt_text(expr@, level, cfg));
            },
            _ => {},
        }
    }

    /// Writes a binding: a function declaration where the value is a function, an
    /// initialized declaration otherwise.
    fn emit_let(&self, ctx: &mut EmitContextImpl, expr: &Expr)
        requires
            expr is Let,
            old(ctx).level + nesting(expr@) <= usize::MAX,
        ensures
            wrote(
                *old(ctx),
                *final(ctx),
                stmt_text(expr@, old(ctx).level as nat, old(ctx).settings()),
            ),
        decreases expr, 1nat,
    {
        let ghost level = old(ctx).level as nat;
        let ghost cfg = old(ctx).settings();
        match expr {
            Expr::Let(name, value) => {
                assert(node_of(**value) is Fn <==> **value is Fn);
                match &**value {
                    Expr::Fn(params, body) => {
                        ctx.emit("");
                        self.emit_function(ctx, "auto", name.as_str(), params, body);
                    },
                    _ => {
                        let value_string = self.emit_value(value);
                        let mut text = ctx.indent();
                        text.append("auto");
                        text.append(" ");
                        text.append(name.as_str());
                        text.append(" = ");
                        text.append(value_string.as_str());
                        text.append(";");
                        ctx.emit(text.as_str());
                    },
                }
                assert(ctx.output@ =~= old(ctx).output@ + stmt_text(expr@, level, cfg));
            },
            _ => {},
        }
    }

    /// Writes a typed binding: a function declaration with that result type where
    /// the value is a function, an initialized declaration otherwise.
    fn emit_typed_let(&self, ctx: &mut EmitContextImpl, expr: &Expr)
        requires
            expr is TypedLet,
            old(ctx).level + nesting(expr@) <= usize::MAX,
        ensures
            wrote(
                *old(ctx),
                *final(ctx),
                stmt_text(expr@, old(ctx).level as nat, old(ctx).settings()),
            ),
        decreases expr, 1nat,
    {
        let ghost level = old(ctx).level as nat;
        let ghost cfg = old(ctx).settings();
        match expr {
            Expr::TypedLet(name, ty, value) => {
                assert(node_of(**value) is Fn <==> **value is Fn);
                let ty_text = self.emit_type(ty);
                match &**value {
                    Expr::Fn(params, body) => {
                        ctx.emit("");
                        self.emit_function(ctx, ty_text.as_str(), name.as_str(), params, body);
                    },
                    _ => {
                        let value_string = self.emit_value(value);
                        let mut text = ctx.indent();
                        text.append(ty_text.as_str());
                        text.append(" ");
                        text.append(name.as_str());
                        text.append(" = ");
                        text.append(value_string.as_str());
                        text.append(";");
                        ctx.emit(text.as_str());
                    },
                }
                assert(ctx.output@ =~= old(ctx).output@ + stmt_text(expr@, level, cfg));
            },
            _ => {},
        }
    }

    /// Writes a conditional; without an else body there is no else block.
    fn emit_if(&self, ctx: &mut EmitContextImpl, expr: &Expr)
        requires
            expr is If,
            old(ctx).level + nesting(expr@) <= usize::MAX,
        ensures
            wrote(
                *old(ctx),
                *final(ctx),
                stmt_text(expr@, old(ctx).level as nat, old(ctx).settings()),
            ),
        decreases expr, 1nat,
    {
        let ghost level = old(ctx).level as nat;
        let ghost cfg = old(ctx).settings();
        match expr {
            Expr::If(cond, then_body, else_body) => {
                let cond_string = self.emit_value(cond);
                let indent = ctx.indent();
                let mut head = String::new();
                head.append(indent.as_str());
                head.append("if (");
                head.append(cond_string.as_str());
                head.append(") {");
                ctx.emit(head.as_str());
                ctx.level += 2;
                self.emit_block(ctx, then_body);
                ctx.level -= 2;
                let mut foot = String::new();
                foot.append(indent.as_str());
                foot.append("}");
                ctx.emit(foot.as_str());
                match else_body {
                    Some(body) => {
                        let mut otherwise = String::new();
                        otherwise.append(indent.as_str());
                        otherwise.append("else {");
                        ctx.emit(otherwise.as_str());
                        ctx.level += 2;
                        self.emit_block(ctx, body);
                        ctx.level -= 2;
                        ctx.emit(foot.as_str());
                    },
                    None => {},
                }
                assert(ctx.output@ =~= old(ctx).output@ + stmt_text(expr@, level, cfg));
            },
            _ => {},
        }
    }

    /// Writes a loop over an iterable; a list pattern is bound in square brackets.
    fn emit_loop(&self, ctx: &mut EmitContextImpl, expr: &Expr)
        requires
            expr is Loop,
            old(ctx).level + nesting(expr@) <= usize::MAX,
        ensures
            wrote(
                *old(ctx),
                *final(ctx),
                stmt_text(expr@, old(ctx).level as nat, old(ctx).settings()),
            ),
        decreases expr, 1nat,
    {
        let ghost level = old(ctx).level as nat;
        let ghost cfg = old(ctx).settings();
        match expr {
            Expr::Loop(binding, iterable, body) => {
                assert(node_of(**binding) is List <==> **binding is List);
                let iterable_string = self.emit_value(iterable);
                let indent = ctx.indent();
                let mut head = String::new();
                head.append("\n");
                head.append(indent.as_str());
                head.append("for (auto ");
                match &**binding {
                    Expr::List(items) => {
                        let parts = self.value_strings(items);
                        let names = join_strings(&parts, ", ");
                        head.append("[");
                        head.append(names.as_str());
                        head.append("]");
                    },
                    _ => {
                        let binding_string = self.emit_value(binding);
                        head.append(binding_string.as_str());
                    },
                }
                head.append(" : ");
                head.append(iterable_string.as_str());
                head.append(") {");
                assert(head@ =~= "\n"@ + spaces(level) + "for (auto "@ + binding_text(
                    node_of(**binding),
                ) + " : "@ + value_text(node_of(**iterable)) + ") {"@);
                ctx.emit(head.as_str());
                ctx.level += 2;
                self.emit_block(ctx, body);
                ctx.level -= 2;
                let mut foot = String::new();
                foot.append(indent.as_str());
                foot.append("}");
                ctx.emit(foot.as_str());
                assert(ctx.output@ =~= old(ctx).output@ + stmt_text(expr@, level, cfg));
            },
            _ => {},
        }
    }

    /// Writes a dispatch on the alternative that the scrutinee holds, one branch per case.
    fn emit_match(&self, ctx: &mut EmitContextImpl, expr: &Expr)
        requires
            expr is Match,
            old(ctx).level + nesting(expr@) <= usize::MAX,
        ensures
            wrote(
                *old(ctx),
                *final(ctx),
                stmt_text(expr@, old(ctx).level as nat, old(ctx).settings()),
            ),
        decreases expr, 1nat,
    {
        let ghost level = old(ctx).level as nat;
        let ghost cfg = old(ctx).settings();
        match expr {
            Expr::Match(scrutinee, cases) => {
                let scrutinee_string = self.emit_value(scrutinee);
                let indent = ctx.indent();
                let mut head = String::new();
                head.append(indent.as_str());
                head.append("std::visit([](auto&& _) {");
                ctx.emit(head.as_str());
                ctx.level += 2;
                let inner = ctx.indent();
                let mut using = String::new();
                using.append(inner.as_str());
                using.append("using T = std::decay_t<decltype(_)>;");
                ctx.emit(using.as_str());
                self.emit_cases(ctx, cases);
                ctx.level -= 2;
                let mut foot = String::new();
                foot.append(inner.as_str());
                foot.append("}, ");
                foot.append(scrutinee_string.as_str());
                foot.append(");");
                ctx.emit(foot.as_str());
                assert(ctx.output@ =~= old(ctx).output@ + stmt_text(expr@, level, cfg));
            },
            _ => {},
        }
    }

    /// Writes a class with public members.
    fn emit_struct(&self, ctx: &mut EmitContextImpl, expr: &Expr)
        requires
            expr is Struct,
            old(ctx).level + nesting(expr@) <= usize::MAX,
        ensures
            wrote(
                *old(ctx),
                *final(ctx),
                stmt_text(expr@, old(ctx).level as nat, old(ctx).settings()),
            ),
        decreases expr, 1nat,
    {
        let ghost level = old(ctx).level as nat;
        let ghost cfg = old(ctx).settings();
        match expr {
            Expr::Struct(name, entries) => {
                let indent = ctx.indent();
                let mut head = String::new();
                head.append("\nclass ");
                head.append(name.as_str());
                head.append(" {");
                ctx.emit(head.as_str());
                ctx.emit("public:");
                ctx.level += 2;
                self.emit_entries(ctx, entries);
                ctx.level -= 2;
                let mut foot = String::new();
                foot.append(indent.as_str());
                foot.append("};");
                ctx.emit(foot.as_str());
                assert(ctx.output@ =~= old(ctx).output@ + stmt_text(expr@, level, cfg));
            },
            _ => {},
        }
    }

    /// Writes a directive: a qualifier in front of its target, the rewritten
    /// alias of an `extend`, nothing for any other name.
    fn emit_directive(&self, ctx: &mut EmitContextImpl, expr: &Expr)
        requires
            expr is Directive,
            old(ctx).level + nesting(expr@) <= usize::MAX,
        ensures
            wrote(
                *old(ctx),
                *final(ctx),
                stmt_text(expr@, old(ctx).level as nat, old(ctx).settings()),
            ),
        decreases expr, 1nat,
    {
        let ghost level = old(ctx).level as nat;
        let ghost cfg = old(ctx).settings();
        match expr {
            Expr::Directive(directive, target) => {
                assert(node_of(**directive) is Var <==> **directive is Var);
                assert(node_of(**directive) is Call <==> **directive is Call);
                match &**directive {
                    Expr::Call(_, _) => {
                        match self.extend_names(directive) {
                            Some((ident, ty)) => {
                                self.emit_extend(ctx, ident.as_str(), ty.as_str(), target);
                            },
                            None => {},
                        }
                    },
                    Expr::Var(name) => {
                        match qualifier_str(name.as_str()) {
                            Some(_) => {
                                let qualified = self.emit_value(expr);
                                self.emit_qualified(ctx, qualified.as_str(), target);
                            },
                            None => {},
                        }
                    },
                    _ => {},
                }
                assert(ctx.output@ =~= old(ctx).output@ + stmt_text(expr@, level, cfg));
            },
            _ => {},
        }
    }

    /// Writes a chain of qualifier directives in statement position. `text`
    /// is the whole chain in value position, `target` what is left of the
    /// chain: the innermost target is followed to, and is written once.
    pub fn emit_qualified(&self, ctx: &mut EmitContextImpl, text: &str, target: &Expr)
        requires
            old(ctx).level + qualified_nesting(target@) <= usize::MAX,
        ensures
            wrote(
                *old(ctx),
                *final(ctx),
                qualified_text(text@, target@, old(ctx).level as nat, old(ctx).settings()),
            ),
        decreases target, 3nat,
    {
        let ghost level = old(ctx).level as nat;
        let ghost cfg = old(ctx).settings();
        match target {
            Expr::Directive(_, inner) => {
                if is_qualifier_directive(target) {
                    self.emit_qualified(ctx, text, inner);
                } else {
                    let mut head = ctx.indent();
                    head.append(text);
                    ctx.emit(head.as_str());
                    self.emit_expr(ctx, target);
                    assert(ctx.output@ =~= old(ctx).output@ + qualified_text(
                        text@,
                        target@,
                        level,
                        cfg,
                    ));
                }
            },
            _ => {
                let mut head = ctx.indent();
                head.append(text);
                if yields_value(target) {
                    head.append(";");
                    ctx.emit(head.as_str());
                } else {
                    ctx.emit(head.as_str());
                    self.emit_expr(ctx, target);
                }
                assert(ctx.output@ =~= old(ctx).output@ + qualified_text(
                    text@,
                    target@,
                    level,
                    cfg,
                ));
            },
        }
    }

    /// Writes a node in statement position at the current level: zero or
    /// more whole lines. The level is the same afterwards.
    pub fn emit_expr(&self, ctx: &mut EmitContextImpl, expr: &Expr)
        requires
            old(ctx).level + nesting(expr@) <= usize::MAX,
        ensures
            wrote(
                *old(ctx),
                *final(ctx),
                stmt_text(expr@, old(ctx).level as nat, old(ctx).settings()),
            ),
        decreases expr, 2nat,
    {
        let ghost level = old(ctx).level as nat;
        let ghost cfg = old(ctx).settings();
        match expr {
            Expr::Program(..) => {
                self.emit_program_node(ctx, expr);
            },
            Expr::Let(..) => {
                self.emit_let(ctx, expr);
            },
            Expr::TypedLet(..) => {
                self.emit_typed_let(ctx, expr);
            },
            Expr::Assign(target, value) => {
                let target_string = self.emit_value(target);
                let value_string = self.emit_value(value);
                let mut text = ctx.indent();
                text.append(target_string.as_str());
                text.append(" = ");
                text.append(value_string.as_str());
                text.append(";");
                ctx.emit(text.as_str());
                assert(ctx.output@ =~= old(ctx).output@ + stmt_text(expr@, level, cfg));
            },
            Expr::If(..) => {
                self.emit_if(ctx, expr);
            },
            Expr::Loop(..) => {
                self.emit_loop(ctx, expr);
            },
            Expr::Match(..) => {
                self.emit_match(ctx, expr);
            },
            Expr::Struct(..) => {
                self.emit_struct(ctx, expr);
            },
            Expr::TypeAlias(name, params, rhs) => {
                self.emit_alias(ctx, name.as_str(), params, rhs);
            },
            Expr::Directive(..) => {
                self.emit_directive(ctx, expr);
            },
            _ => {
                let value_string = self.emit_value(expr);
                let mut text = ctx.indent();
                text.append(value_string.as_str());
                text.append(";");
                ctx.emit(text.as_str());
                assert(ctx.output@ =~= old(ctx).output@ + stmt_text(expr@, level, cfg));
            },
        }
    }

    /// Renders `expr` as one text unit under the module name `module_id`,
    /// after the output that this emitter's context already holds.
    pub fn emit_program(&mut self, expr: &Expr, module_id: &str) -> (out: String)
        requires
            old(self).ctx.level + nesting(expr@) <= usize::MAX,
        ensures
            out@ == old(self).ctx.output@ + stmt_text(
                expr@,
                old(self).ctx.level as nat,
                (Settings { use_prelude: old(self).ctx.use_prelude, module_name: module_id@ }),
            ),
            *final(self) == *old(self),
    {
        let mut ctx = EmitContextImpl {
            level: self.ctx.level,
            output: self.ctx.output.clone(),
            module_id: String::from_str(module_id),
            use_prelude: self.ctx.use_prelude,
        };
        self.emit_expr(&mut ctx, expr);
        ctx.output
    }

    /// Whether the statements of a block are nested no deeper than `budget`.
    pub fn block_within(&self, items: &Vec<Expr>, budget: usize) -> (yes: bool)
        ensures
            yes == (block_nesting(nodes_of(items@)) <= budget),
        decreases items, 0nat,
    {
        let ghost nodes = nodes_of(items@);
        let mut i: usize = 0;
        while i < items.len()
            invariant
                i <= items.len(),
                nodes == nodes_of(items@),
                block_nesting(nodes.take(i as int)) <= budget,
            decreases items.len() - i,
        {
            proof {
                lemma_block_nesting(nodes, i as int);
                assert(nodes.take(i + 1).drop_last() =~= nodes.take(i as int));
                assert(nodes.take(i + 1).last() == node_of(items@[i as int]));
            }
            if !self.nests_within(&items[i], budget) {
                return false;
            }
            i += 1;
        }
        assert(nodes.take(items.len() as int) =~= nodes);
        true
    }

    /// Whether the top-level statements of a program are nested no deeper
    /// than `budget`.
    pub fn items_within(&self, items: &Vec<Box<Expr>>, budget: usize) -> (yes: bool)
        ensures
            yes == (block_nesting(boxed_nodes_of(items@)) <= budget),
        decreases items, 0nat,
    {
        let ghost nodes = boxed_nodes_of(items@);
        let mut i: usize = 0;
        while i < items.len()
            invariant
                i <= items.len(),
                nodes == boxed_nodes_of(items@),
                block_nesting(nodes.take(i as int)) <= budget,
            decreases items.len() - i,
        {
            proof {
                lemma_block_nesting(nodes, i as int);
                assert(nodes.take(i + 1).drop_last() =~= nodes.take(i as int));
                assert(nodes.take(i + 1).last() == node_of(*items@[i as int]));
            }
            if !self.nests_within(&items[i], budget) {
                return false;
            }
            i += 1;
        }
        assert(nodes.take(items.len() as int) =~= nodes);
        true
    }

    /// Whether the branches of a match are nested no deeper than `budget`.
    pub fn cases_within(&self, cases: &Vec<(String, Vec<Expr>)>, budget: usize) -> (yes: bool)
        ensures
            yes == (cases_nesting(cases_of(cases@)) <= budget),
        decreases cases, 0nat,
    {
        let ghost branches = cases_of(cases@);
        let mut i: usize = 0;
        while i < cases.len()
            invariant
                i <= cases.len(),
                branches == cases_of(cases@),
                cases_nesting(branches.take(i as int)) <= budget,
            decreases cases.len() - i,
        {
            proof {
                lemma_cases_nesting(branches, i as int);
                assert(branches.take(i + 1).drop_last() =~= branches.take(i as int));
                assert(branches.take(i + 1).last() == branches[i as int]);
                assert(branches[i as int] == (cases@[i as int].0@, nodes_of(cases@[i as int].1@)));
            }
            if budget < 2 || !self.block_within(&cases[i].1, budget - 2) {
                return false;
            }
            i += 1;
        }
        assert(branches.take(cases.len() as int) =~= branches);
        true
    }

    /// Whether the members of a struct are nested no deeper than `budget`.
    pub fn entries_within(&self, entries: &Vec<(String, Expr)>, budget: usize) -> (yes: bool)
        ensures
            yes == (entries_nesting(entries_of(entries@)) <= budget),
        decreases entries, 0nat,
    {
        let ghost members = entries_of(entries@);
        let mut i: usize = 0;
        while i < entries.len()
            invariant
                i <= entries.len(),
                members == entries_of(entries@),
                entries_nesting(members.take(i as int)) <= budget,
            decreases entries.len() - i,
        {
            proof {
                lemma_entries_nesting(members, i as int);
                assert(members.take(i + 1).drop_last() =~= members.take(i as int));
                assert(members.take(i + 1).last() == members[i as int]);
                assert(members[i as int] == (entries@[i as int].0@, node_of(entries@[i as int].1)));
            }
            match &entries[i].1 {
                Expr::Fn(_, body) => {
                    if budget < 2 || !self.block_within(body, budget - 2) {
                        return false;
                    }
                },
                _ => {},
            }
            i += 1;
        }
        assert(members.take(entries.len() as int) =~= members);
        true
    }

    /// Whether what an `extend` directive writes for `target` is nested no
    /// deeper than `budget`.
    pub fn extend_within(&self, target: &Expr, budget: usize) -> (yes: bool)
        ensures
            yes == (extend_nesting(target@) <= budget),
        decreases target,
    {
        match target {
            Expr::TypeAlias(_, _, rhs) => alias_within(rhs, budget),
            Expr::Directive(_, inner) => self.extend_within(inner, budget),
            _ => true,
        }
    }

    /// Whether a chain of qualifier directives around `target` is nested no
    /// deeper than `budget`.
    pub fn qualified_within(&self, target: &Expr, budget: usize) -> (yes: bool)
        ensures
            yes == (qualified_nesting(target@) <= budget),
        decreases target, 2nat,
    {
        match target {
            Expr::Directive(_, inner) => {
                if is_qualifier_directive(target) {
                    self.qualified_within(inner, budget)
                } else {
                    self.nests_within(target, budget)
                }
            },
            _ => yields_value(target) || self.nests_within(target, budget),
        }
    }

    /// Whether a node in statement position is nested no deeper than `budget`.
    pub fn nests_within(&self, expr: &Expr, budget: usize) -> (yes: bool)
        ensures
            yes == (nesting(expr@) <= budget),
        decreases expr, 1nat,
    {
        match expr {
            Expr::Program(items) => self.items_within(items, budget),
            Expr::Let(_, value) => {
                assert(node_of(**value) is Fn <==> **value is Fn);
                match &**value {
                    Expr::Fn(_, body) => budget >= 2 && self.block_within(body, budget - 2),
                    _ => true,
                }
            },
            Expr::TypedLet(_, _, value) => {
                assert(node_of(**value) is Fn <==> **value is Fn);
                match &**value {
                    Expr::Fn(_, body) => budget >= 2 && self.block_within(body, budget - 2),
                    _ => true,
                }
            },
            Expr::If(_, then_body, else_body) => {
                budget >= 2 && self.block_within(then_body, budget - 2) && match else_body {
                    Some(body) => self.block_within(body, budget - 2),
                    None => true,
                }
            },
            Expr::Loop(_, _, body) => budget >= 2 && self.block_within(body, budget - 2),
            Expr::Match(_, cases) => budget >= 2 && self.cases_within(cases, budget - 2),
            Expr::Struct(_, entries) => budget >= 2 && self.entries_within(entries, budget - 2),
            Expr::TypeAlias(_, _, rhs) => alias_within(rhs, budget),
            Expr::Directive(directive, target) => {
                assert(node_of(**directive) is Var <==> **directive is Var);
                assert(node_of(**directive) is Call <==> **directive is Call);
                match &**directive {
                    Expr::Call(_, _) => {
                        match self.extend_names(directive) {
                            Some(_) => self.extend_within(target, budget),
                            None => true,
                        }
                    },
                    Expr::Var(name) => {
                        match qualifier_str(name.as_str()) {
                            Some(_) => self.qualified_within(target, budget),
                            None => true,
                        }
                    },
                    _ => true,
                }
            },
            _ => true,
        }
    }

    /// Whether `emit_program` can render `expr` from this emitter's
    /// context: the indentation stays within `usize`.
    pub fn fits(&self, expr: &Expr) -> (yes: bool)
        ensures
            yes == (self.ctx.level + nesting(expr@) <= usize::MAX),
    {
        self.nests_within(expr, usize::MAX - self.ctx.level)
    }
}

/// Whether the members of an alias are nested no deeper than `budget`.
pub fn alias_within(rhs: &Expr, budget: usize) -> (yes: bool)
    ensures
        yes == (alias_nesting(rhs@) <= budget),
{
    match rhs {
        Expr::TypedRecord(record) => {
            assert(node_of(**record) is Record <==> **record is Record);
            match &**record {
                Expr::Record(_) => budget >= 2,
                _ => true,
            }
        },
        _ => true,
    }
}

} // verus!
