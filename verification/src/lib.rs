//! 天语言（Tian）编译器：抽象语法树、词法分析、语法分析、类型与所有权检查、
//! 源码格式化，以及 C 中转后端（表达式、语句、整个翻译单元）和原生后端中与机器码无关的规则。

pub mod ast;
pub mod text;
pub mod lexer;
pub mod type_check;
pub mod checker;
pub mod parser;
pub mod fmt;
pub mod gen_c;
pub mod c_program;
pub mod c_output;
pub mod native;
pub mod c_ready;
