//! The compiler adapter: the command that builds one source file into a
//! binary under `cpstt_out/bin/`, the name that binary gets, and the rule
//! that any diagnostic output means failure.

use vstd::prelude::*;
use vstd::string::StringExecFns;
use rand::Rng;
use crate::paths::{
    file_name, file_name_of, is_single_name, lemma_extension_of_bare_name, lemma_last_index_is,
    parent, parent_of, with_extension, with_extension_of,
};
use crate::text::{
    decimal, digits, from_chars, lemma_decimal_is_digits, lemma_decimal_is_injective, texts,
};

verus! {

/// Why a program yielded no result.
#[derive(Debug)]
pub enum EngineError {
    /// The toolchain wrote diagnostics while it compiled the source.
    CompileError { diagnostics: String },
    /// The program, named by the path of its source, wrote to its error
    /// stream. The generator is reported with an empty `program`.
    RuntimeError { program: String, diagnostics: String },
}

/// An `EngineError` as plain text.
pub ghost enum Failure {
    CompileError { diagnostics: Seq<char> },
    RuntimeError { program: Seq<char>, diagnostics: Seq<char> },
}

impl View for EngineError {
    type V = Failure;

    open spec fn view(&self) -> Failure {
        match self {
            EngineError::CompileError { diagnostics } => Failure::CompileError {
                diagnostics: diagnostics@,
            },
            EngineError::RuntimeError { program, diagnostics } => Failure::RuntimeError {
                program: program@,
                diagnostics: diagnostics@,
            },
        }
    }
}

/// One call of the toolchain: the program to start, its arguments, and the
/// directory to start it in.
#[derive(Debug)]
pub struct CompileCommand {
    pub program: String,
    pub args: Vec<String>,
    pub working_dir: String,
}

/// The arguments of the toolchain for the source `cpp_path` and the binary
/// name `id`: C++17, optimised, with checks for undefined behaviour, the
/// working directory as include path, and the binary under `cpstt_out/bin/`.
pub open spec fn compile_args(cpp_path: Seq<char>, id: Seq<char>) -> Seq<Seq<char>> {
    seq![
        "-std=c++1z"@,
        "-O3"@,
        "-fsanitize=undefined"@,
        "-I"@,
        "."@,
        "-o"@,
        "cpstt_out/bin/"@ + id,
        cpp_path,
    ]
}

/// The file name of the binary built from `stem` with the extension `ext`.
pub open spec fn binary_name_of(stem: Seq<char>, ext: Seq<char>) -> Seq<char> {
    file_name_of(with_extension_of(stem, ext))
}

/// Where the binary called `name` lies under the root directory `root`.
pub open spec fn binary_path_of(root: Seq<char>, name: Seq<char>) -> Seq<char> {
    root + "/cpstt_out/bin/"@ + name
}

/// The binary of the worker that drew `id` is called by the numeral of `id`,
/// a `.` and the extension; by the numeral alone where the extension is
/// empty.
pub proof fn lemma_numbered_binary_name(id: nat, ext: Seq<char>)
    requires
        is_single_name(ext),
    ensures
        binary_name_of(decimal(id), ext) == if ext.len() == 0 {
            decimal(id)
        } else {
            decimal(id) + seq!['.'] + ext
        },
{
    let numeral = decimal(id);
    lemma_decimal_is_digits(id);
    assert forall|i: int| 0 <= i < numeral.len() implies numeral[i] != '/' && numeral[i]
        != '.' by {
        assert('0' <= numeral[i] <= '9');
    }
    lemma_extension_of_bare_name(numeral, ext);
    let renamed = with_extension_of(numeral, ext);
    assert forall|i: int| 0 <= i < renamed.len() implies renamed[i] != '/' by {
        if ext.len() > 0 && i > numeral.len() {
            assert(renamed[i] == ext[i - numeral.len() - 1]);
        }
    }
    lemma_last_index_is(renamed, '/', -1);
    assert(file_name_of(renamed) =~= renamed);
}

/// The number of the worker at position `index` of a sweep that drew `seed`:
/// the numbers go up from `seed` by one for each worker and start again at 0
/// behind the largest.
pub open spec fn worker_id(seed: u32, index: nat) -> u32 {
    ((seed + index) % 0x1_0000_0000) as u32
}

/// Workers of one sweep get binaries with different names, whatever the seed
/// is, as long as fewer than 2^32 positions lie between them and the
/// extension holds no `/`.
pub proof fn lemma_binaries_differ(seed: u32, i: nat, j: nat, ext: Seq<char>)
    requires
        i < j,
        j - i < 0x1_0000_0000,
        is_single_name(ext),
    ensures
        binary_name_of(decimal(worker_id(seed, i) as nat), ext) != binary_name_of(
            decimal(worker_id(seed, j) as nat),
            ext,
        ),
{
    let a = worker_id(seed, i) as nat;
    let b = worker_id(seed, j) as nat;
    assert(a != b) by {
        let m = 0x1_0000_0000int;
        let x = seed + i;
        let y = seed + j;
        if x % m == y % m {
            vstd::arithmetic::div_mod::lemma_fundamental_div_mod(x, m);
            vstd::arithmetic::div_mod::lemma_fundamental_div_mod(y, m);
            let d = y / m - x / m;
            assert(y - x == m * (y / m) - m * (x / m));
            assert(m * (y / m) - m * (x / m) == m * d) by (nonlinear_arith)
                requires
                    d == y / m - x / m,
            ;
            assert(0 < m * d < m);
            assert(false) by (nonlinear_arith)
                requires
                    0 < m * d < m,
                    m > 0,
            ;
        }
    }
    lemma_numbered_binary_name(a, ext);
    lemma_numbered_binary_name(b, ext);
    let name_a = binary_name_of(decimal(a), ext);
    let name_b = binary_name_of(decimal(b), ext);
    if name_a == name_b {
        lemma_decimal_is_digits(a);
        lemma_decimal_is_digits(b);
        if ext.len() > 0 {
            let la = decimal(a).len() as int;
            let lb = decimal(b).len() as int;
            assert(name_a[la] == '.');
            assert(name_b[lb] == '.');
            if la < lb {
                assert(name_b[la] == decimal(b)[la]);
            } else if lb < la {
                assert(name_a[lb] == decimal(a)[lb]);
            }
            assert(name_a.subrange(0, la) =~= decimal(a));
            assert(name_b.subrange(0, lb) =~= decimal(b));
        }
        lemma_decimal_is_injective(a, b);
    }
}

/// The command that compiles `cpp_path` into the binary `id`, to be run in
/// the directory of the source.
pub fn compile(cpp_path: &str, id: &str) -> (command: CompileCommand)
    ensures
        command.program@ == "g++"@,
        texts(command.args@) == compile_args(cpp_path@, id@),
        command.working_dir@ == parent_of(cpp_path@),
{
    let mut target = String::from_str("cpstt_out/bin/");
    target.append(id);
    let mut args: Vec<String> = Vec::new();
    args.push(String::from_str("-std=c++1z"));
    args.push(String::from_str("-O3"));
    args.push(String::from_str("-fsanitize=undefined"));
    args.push(String::from_str("-I"));
    args.push(String::from_str("."));
    args.push(String::from_str("-o"));
    args.push(target);
    args.push(String::from_str(cpp_path));
    assert(texts(args@) =~= compile_args(cpp_path@, id@));
    CompileCommand { program: String::from_str("g++"), args, working_dir: parent(cpp_path) }
}

/// Judges a finished compilation by what the toolchain wrote to its error
/// stream: nothing is success, anything is a compile error that carries it.
pub fn check_compile(diagnostics: String) -> (checked: Result<(), EngineError>)
    ensures
        checked is Ok <==> diagnostics@.len() == 0,
        checked is Err ==> checked->Err_0@ == (Failure::CompileError {
            diagnostics: diagnostics@,
        }),
{
    if diagnostics.as_str().is_empty() {
        Ok(())
    } else {
        Err(EngineError::CompileError { diagnostics })
    }
}

/// The file name of the binary built from `stem`, with the configured
/// extension.
pub fn binary_name(stem: &str, extension: &str) -> (name: String)
    ensures
        name@ == binary_name_of(stem@, extension@),
{
    let renamed = with_extension(stem, extension);
    file_name(renamed.as_str())
}

/// Where the binary called `name` lies under `root`.
pub fn binary_path(root: &str, name: &str) -> (path: String)
    ensures
        path@ == binary_path_of(root@, name@),
{
    let mut path = String::from_str(root);
    path.append("/cpstt_out/bin/");
    path.append(name);
    path
}

/// Calls `rand`: `thread_rng` for the generator of the current thread and
/// `Rng::gen` for one `u32` drawn from it. Nothing is claimed of the value.
/// The call takes no input that could be ruled out; it fails only where the
/// system hands out no random numbers.
#[verifier::external_body]
pub(crate) fn random_id() -> (id: u32) {
    rand::thread_rng().gen()
}

/// The number of the worker at position `index` of a sweep that drew `seed`.
pub fn nth_id(seed: u32, index: usize) -> (id: u32)
    ensures
        id == worker_id(seed, index as nat),
{
    ((seed as u128 + index as u128) % 0x1_0000_0000) as u32
}

/// The binary name of the worker that drew `id`: the numeral of `id` with the
/// configured extension.
pub fn numbered_binary_name(id: u32, extension: &str) -> (name: String)
    ensures
        name@ == binary_name_of(decimal(id as nat), extension@),
{
    let numeral = from_chars(&digits(id as u128));
    binary_name(numeral.as_str(), extension)
}

} // verus!
