//! The generator runner: the program that writes the test cases is compiled
//! and run once, before any solution is.

use vstd::prelude::*;
use vstd::string::StringExecFns;
use crate::compiler::{
    binary_name, binary_name_of, compile, compile_args, CompileCommand, EngineError, Failure,
};
use crate::fileio::ExecutionSettings;
use crate::paths::{join, joined, parent, parent_of, with_extension, with_extension_of};
use crate::print_console::{painted, Hue, PrintColorize};
use crate::text::{copy_texts, texts};

verus! {

/// How the generator is built and started.
#[derive(Debug)]
pub struct GeneratorPlan {
    /// How its source is compiled.
    pub compile: CompileCommand,
    /// The binary to start once it is compiled.
    pub program: String,
    /// The arguments to start it with.
    pub args: Vec<String>,
}

/// Whether `plan` builds the source `cpp_path` into the binary `generator`
/// with the extension `ext` under `root`, and starts it with `args`.
pub open spec fn generates(
    plan: GeneratorPlan,
    cpp_path: Seq<char>,
    args: Seq<Seq<char>>,
    root: Seq<char>,
    ext: Seq<char>,
) -> bool {
    &&& plan.compile.program@ == "g++"@
    &&& texts(plan.compile.args@) == compile_args(cpp_path, binary_name_of("generator"@, ext))
    &&& plan.compile.working_dir@ == parent_of(cpp_path)
    &&& plan.program@ == with_extension_of(root + "/cpstt_out/bin/generator"@, ext)
    &&& texts(plan.args@) == args
}

/// What the console shows once the generator is done: its label in bold
/// cyan and, where output is shown, what the generator wrote on the
/// following lines.
pub open spec fn generator_text(output: Seq<char>, shown: bool) -> Seq<char> {
    let line = painted(Hue::Cyan, "[ generator ]"@) + " is done."@;
    if shown {
        line + "\n"@ + output
    } else {
        line
    }
}

/// The plan for the generator whose source is `cpp_path`, to be started with
/// `exec_args`; `root_path` is the directory of the test run.
pub fn exec_generator(
    cpp_path: &str,
    exec_args: &Vec<String>,
    root_path: &str,
    settings: &ExecutionSettings,
) -> (plan: GeneratorPlan)
    ensures
        generates(plan, cpp_path@, texts(exec_args@), root_path@, settings.bin_extension@),
{
    let name = binary_name("generator", settings.bin_extension.as_str());
    let command = compile(cpp_path, name.as_str());
    let mut bare = String::from_str(root_path);
    bare.append("/cpstt_out/bin/generator");
    let program = with_extension(bare.as_str(), settings.bin_extension.as_str());
    GeneratorPlan { compile: command, program, args: copy_texts(exec_args) }
}

/// The plan for the generator of the test run under `generator_path`: its
/// source is `generator.cpp` there, and it is handed the directory of its
/// source as its only argument.
pub fn generator(generator_path: &str, settings: &ExecutionSettings) -> (plan: GeneratorPlan)
    ensures
        generates(
            plan,
            joined(generator_path@, "generator.cpp"@),
            seq![parent_of(joined(generator_path@, "generator.cpp"@))],
            parent_of(joined(generator_path@, "generator.cpp"@)),
            settings.bin_extension@,
        ),
{
    let source = join(generator_path, "generator.cpp");
    let root = parent(source.as_str());
    let mut args: Vec<String> = Vec::new();
    args.push(root.clone());
    assert(texts(args@) =~= seq![root@]);
    exec_generator(source.as_str(), &args, root.as_str(), settings)
}

/// Judges a finished run of the generator: what it wrote to its output,
/// unless it wrote anything to its error stream, which is a runtime error
/// that carries it.
pub fn check_generator(stdout: String, stderr: String) -> (checked: Result<String, EngineError>)
    ensures
        checked is Ok <==> stderr@.len() == 0,
        checked is Ok ==> checked->Ok_0@ == stdout@,
        checked is Err ==> checked->Err_0@ == (Failure::RuntimeError {
            program: Seq::empty(),
            diagnostics: stderr@,
        }),
{
    if stderr.as_str().is_empty() {
        Ok(stdout)
    } else {
        Err(EngineError::RuntimeError { program: String::new(), diagnostics: stderr })
    }
}

/// What the console shows once the generator is done and has written
/// `output`.
pub fn generator_report(output: &str, shown: bool) -> (text: String)
    ensures
        text@ == generator_text(output@, shown),
{
    let mut text = PrintColorize::print_cyan(String::from_str("[ generator ]"));
    text.append(" is done.");
    if shown {
        text.append("\n");
        text.append(output);
    }
    text
}

} // verus!
