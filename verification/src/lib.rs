//! The core of a transpiler from the Esper language to C++.
//!
//! `esper_parser::program` turns source text into a syntax tree, or into
//! the report of the furthest position that the parse reached. The
//! emitter, `emit::EmitDefault`, renders a tree as C++ text. `visit` walks
//! a tree and calls back on every node; `lint` uses it to find the
//! directives that the emitter leaves out.
//!
//! Each of them is proved against a function of the tree or of the text:
//! the parser against the rules in `grammar`, the emitter against the
//! texts in `render`, the walk against the preorder in `visit`. What holds
//! of all inputs beyond that is stated in `laws`, `parse_laws`, `bounds`,
//! `furthest` and `order`.

pub mod ast;
pub mod copy;
pub mod text;
pub mod render;
pub mod emit;
pub mod laws;
pub mod visit;
pub mod lint;
pub mod token;
pub mod order;
pub mod grammar;
pub mod lexer;
pub mod esper_parser;
pub mod bounds;
pub mod furthest;
pub mod first;
pub mod parse_laws;
pub mod diagnostics;
pub mod cc;
