# tian

天语言（Tian）编译器的核心，用 Verus 写成并验证：每个公开函数的契约说明它对每个输入的结果。

- `ast`：语法树及其规约视图。
- `text`：字符与字符串的小工具（数字文本、字符分类）。
- `lexer`：词法分析（含斜杠歧义的判定）。
- `parser`：语法分析；以可恢复的状态机驱动，`use` 导入由调用方读文件后交回。
- `type_check`、`checker`：类型推导、名字表与作用域，以及整个程序的类型与所有权检查。
- `fmt`：源码规范化格式。
- `gen_c`：C 后端的命名、类型名、释放语句、移动位置空与表达式生成。
- `c_program`：C 后端的声明、赋值、容器语句、返回、语句块与契约校验行。
- `c_output`：整个 C 翻译单元（运行时、结构体、前向声明、main、函数定义）。
- `c_ready`：程序能否按生成规则生成 C 的判定，以及先判定再生成的 `try_generate`。
- `native`：原生后端中与机器码无关的规则（复制表达式、返回值改写、sel 类型统一、字段查找）。

原生目标文件的生成（经 Cranelift 发出机器码的 `generate_object`、`compile_fn`、`compile_top`
及其语句与表达式发射）不在本库中：它们离不开 Cranelift 的构建器接口，本项目不依赖 Cranelift。

`app/` 是读文件、处理 `use` 导入的外围代码；`tests/` 是测试。
