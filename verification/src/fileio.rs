//! The configuration record and the directory layout of a test run.

use vstd::prelude::*;
use vstd::string::StringExecFns;
use crate::paths::{
    ascending, extension, extension_of, file_name, file_name_of, join, joined,
    lemma_text_le_total, lemma_text_le_transitive, precedes, text_le,
};
use crate::print_console::{diagnostic, Hue, PrintError};
use crate::text::{same_text, texts, to_chars};

verus! {

/// How programs are run and how much of their output is shown.
#[derive(Debug)]
pub struct ExecutionSettings {
    /// Output of fewer bytes than this is shown in full. A negative value
    /// sets no limit.
    pub max_output_len: i32,
    /// The number of lines over which longer output is spread when it is
    /// shown. A value below 1 sets no limit.
    pub max_output_line: i32,
    /// The wall-clock budget of one run, in milliseconds.
    pub time_limit: u64,
    /// The extension of compiled binaries and of stored output files.
    pub bin_extension: String,
}

/// What is written to the console besides progress.
#[derive(Debug)]
pub struct LoggingSettings {
    /// Whether the output of every run is shown after its progress line.
    pub dump_exe_result: bool,
}

/// The whole configuration of a test run.
#[derive(Debug)]
pub struct SettingsClass {
    pub execution: ExecutionSettings,
    pub logging: LoggingSettings,
}

impl ExecutionSettings {
    /// Whether output of `byte_len` bytes is short enough to be shown in full.
    pub open spec fn shows_in_full(&self, byte_len: nat) -> bool {
        self.max_output_len < 0 || byte_len < self.max_output_len
    }

    /// How many line breaks of long output are kept as line breaks; `None`
    /// where every one is kept.
    pub open spec fn kept_breaks(&self) -> Option<nat> {
        if self.max_output_line >= 1 {
            Some((self.max_output_line - 1) as nat)
        } else {
            None
        }
    }
}

/// The directory layout of a test run, and what is cleared before one.
pub struct MyFileIO {}

/// The directories of a test run under `root`, parents first: `cpstt_out`,
/// `testcase`, and under `cpstt_out` the binaries and the outputs of the two
/// program variants.
pub open spec fn init_dirs(root: Seq<char>) -> Seq<Seq<char>> {
    let out = joined(root, "cpstt_out"@);
    seq![
        out,
        joined(root, "testcase"@),
        joined(out, "bin"@),
        joined(out, "smart"@),
        joined(out, "stupid"@),
    ]
}

/// The directories that are cleared before a test run under `root`: the test
/// cases, the outputs of the two variants, and the binaries.
pub open spec fn cleaned_dirs(root: Seq<char>) -> Seq<Seq<char>> {
    seq![
        joined(root, "testcase"@),
        joined(root, "cpstt_out/smart"@),
        joined(root, "cpstt_out/stupid"@),
        root + "/cpstt_out/bin/"@,
    ]
}

/// The directory that a run started in `current_dir` works in: its
/// subdirectory `test` where `current_dir` is called `cpstt` and has one,
/// and `current_dir` itself otherwise.
pub open spec fn root_of(current_dir: Seq<char>, has_test_dir: bool) -> Seq<char> {
    if file_name_of(current_dir) == "cpstt"@ && has_test_dir {
        joined(current_dir, "test"@)
    } else {
        current_dir
    }
}

/// Whether the file at `path` is one that a test run leaves behind: its
/// extension is `in` or `out`.
pub open spec fn is_leftover(path: Seq<char>) -> bool {
    extension_of(path) == Some("in"@) || extension_of(path) == Some("out"@)
}

/// How many paths at the front of `paths` are leftovers.
pub open spec fn leftovers_in_front(paths: Seq<Seq<char>>) -> nat
    decreases paths.len(),
{
    if paths.len() == 0 || !is_leftover(paths[0]) {
        0
    } else {
        1 + leftovers_in_front(paths.skip(1))
    }
}

/// A file that stopped the clearing of a directory.
#[derive(Debug)]
pub struct Refusal {
    pub path: String,
    pub extension: Option<String>,
}

/// What clearing a directory comes to: the files to remove, in order, and
/// the file that stopped the clearing, if one did.
#[derive(Debug)]
pub struct CleanPlan {
    pub remove: Vec<String>,
    pub refused: Option<Refusal>,
}

/// A `Refusal` as plain text.
pub ghost struct Stop {
    pub path: Seq<char>,
    pub extension: Option<Seq<char>>,
}

/// A `CleanPlan` as plain text.
pub ghost struct Clearing {
    pub remove: Seq<Seq<char>>,
    pub refused: Option<Stop>,
}

impl View for Refusal {
    type V = Stop;

    open spec fn view(&self) -> Stop {
        Stop {
            path: self.path@,
            extension: match self.extension {
                Some(ext) => Some(ext@),
                None => None,
            },
        }
    }
}

impl View for CleanPlan {
    type V = Clearing;

    open spec fn view(&self) -> Clearing {
        Clearing {
            remove: texts(self.remove@),
            refused: match self.refused {
                Some(refusal) => Some(refusal@),
                None => None,
            },
        }
    }
}

/// What clearing a directory that holds the files `paths` comes to: the
/// leftovers in front are removed, and the first file that is no leftover,
/// if there is one, stops the clearing.
pub open spec fn clearing_of(paths: Seq<Seq<char>>) -> Clearing {
    let stop = leftovers_in_front(paths) as int;
    Clearing {
        remove: paths.take(stop),
        refused: if stop == paths.len() {
            None
        } else {
            Some(Stop { path: paths[stop], extension: extension_of(paths[stop]) })
        },
    }
}

/// The leftovers in front of `paths` are no more than `paths` holds, and
/// the path behind them, if there is one, is no leftover.
pub proof fn lemma_leftovers_in_front(paths: Seq<Seq<char>>)
    ensures
        leftovers_in_front(paths) <= paths.len(),
        leftovers_in_front(paths) < paths.len() ==> !is_leftover(
            paths[leftovers_in_front(paths) as int],
        ),
        forall|i: int| 0 <= i < leftovers_in_front(paths) ==> is_leftover(paths[i]),
    decreases paths.len(),
{
    if paths.len() > 0 && is_leftover(paths[0]) {
        let rest = paths.skip(1);
        lemma_leftovers_in_front(rest);
        assert forall|i: int| 0 <= i < leftovers_in_front(paths) implies is_leftover(
            paths[i],
        ) by {
            if i > 0 {
                assert(rest[i - 1] == paths[i]);
            }
        }
        if leftovers_in_front(paths) < paths.len() {
            assert(rest[leftovers_in_front(rest) as int] == paths[leftovers_in_front(
                paths,
            ) as int]);
        }
    }
}

/// What the notice of a refusal says of the file at `path`.
pub open spec fn refusal_text(path: Seq<char>, extension: Option<Seq<char>>) -> Seq<char> {
    match extension {
        Some(ext) => path + " could not be deleted because its extension is "@ + ext,
        None => path + " could not be deleted because it has no extension"@,
    }
}

impl Refusal {
    /// The notice for the error channel.
    pub fn notice(&self) -> (notice: PrintError)
        ensures
            notice.line@ == diagnostic(
                Hue::Red,
                "Error"@,
                refusal_text(self@.path, self@.extension),
            ),
    {
        let mut text = String::from_str(self.path.as_str());
        match &self.extension {
            Some(ext) => {
                text.append(" could not be deleted because its extension is ");
                text.append(ext.as_str());
            },
            None => {
                text.append(" could not be deleted because it has no extension");
            },
        }
        PrintError::print_error(text)
    }
}

impl MyFileIO {
    /// The directory that a run started in `current_dir` works in.
    pub fn get_root_path(current_dir: &str, has_test_dir: bool) -> (root: String)
        ensures
            root@ == root_of(current_dir@, has_test_dir),
    {
        let name = file_name(current_dir);
        if same_text(name.as_str(), "cpstt") && has_test_dir {
            join(current_dir, "test")
        } else {
            String::from_str(current_dir)
        }
    }

    /// The entries of one directory in the order in which they are worked
    /// on: ascending by their paths, each as often as `entries` holds it.
    /// Both program variants store their outputs under the names of the test
    /// cases, so the two ordered lists pair up case by case.
    pub fn get_path_list(entries: &Vec<String>) -> (ordered: Vec<String>)
        ensures
            ascending(texts(ordered@)),
            texts(ordered@).to_multiset() == texts(entries@).to_multiset(),
    {
        let mut ordered: Vec<String> = Vec::new();
        let mut i: usize = 0;
        assert(texts(ordered@) =~= texts(entries@).take(0));
        while i < entries.len()
            invariant
                i <= entries.len(),
                ascending(texts(ordered@)),
                texts(ordered@).to_multiset() == texts(entries@).take(i as int).to_multiset(),
            decreases entries.len() - i,
        {
            let ghost before = texts(ordered@);
            let ghost entry = entries[i as int]@;
            let chars = to_chars(entries[i].as_str());
            let mut at: usize = 0;
            while at < ordered.len() && precedes(&to_chars(ordered[at].as_str()), &chars)
                invariant
                    at <= ordered.len(),
                    before == texts(ordered@),
                    chars@ == entry,
                    forall|k: int| 0 <= k < at ==> text_le(before[k], entry),
                decreases ordered.len() - at,
            {
                at += 1;
            }
            ordered.insert(at, entries[i].clone());
            proof {
                let after = texts(ordered@);
                assert(after =~= before.insert(at as int, entry));
                assert forall|a: int, b: int| 0 <= a < b < after.len() implies text_le(
                    after[a],
                    after[b],
                ) by {
                    if b == at {
                    } else if a == at {
                        lemma_text_le_total(before[at as int], entry);
                        if b > at + 1 {
                            lemma_text_le_transitive(entry, before[at as int], before[b - 1]);
                        }
                    } else {
                        let from = if a < at {
                            a
                        } else {
                            a - 1
                        };
                        let to = if b < at {
                            b
                        } else {
                            b - 1
                        };
                        assert(text_le(before[from], before[to]));
                    }
                }
                vstd::seq_lib::to_multiset_insert(before, at as int, entry);
                assert(texts(entries@).take(i + 1) =~= texts(entries@).take(i as int).push(entry));
                vstd::seq_lib::to_multiset_build(texts(entries@).take(i as int), entry);
            }
            i += 1;
        }
        assert(texts(entries@).take(entries.len() as int) =~= texts(entries@));
        ordered
    }

    /// The directories to create for a test run under `root_path`, in the
    /// order in which they are created.
    pub fn make_init_dir(root_path: &str) -> (dirs: Vec<String>)
        ensures
            texts(dirs@) == init_dirs(root_path@),
    {
        let out = join(root_path, "cpstt_out");
        let testcase = join(root_path, "testcase");
        let bin = join(out.as_str(), "bin");
        let smart = join(out.as_str(), "smart");
        let stupid = join(out.as_str(), "stupid");
        let mut dirs: Vec<String> = Vec::new();
        dirs.push(out);
        dirs.push(testcase);
        dirs.push(bin);
        dirs.push(smart);
        dirs.push(stupid);
        assert(texts(dirs@) =~= init_dirs(root_path@));
        dirs
    }

    /// Decides what clearing a directory removes, from the paths of the
    /// files in it: every file is removed up to the first one that is no
    /// leftover of a test run, and that one stops the clearing.
    pub fn file_clean(paths: &Vec<String>) -> (plan: CleanPlan)
        ensures
            plan@ == clearing_of(texts(paths@)),
    {
        let ghost all = texts(paths@);
        let mut remove: Vec<String> = Vec::new();
        let mut i: usize = 0;
        assert(all.skip(0) =~= all);
        while i < paths.len()
            invariant
                i <= paths.len(),
                all == texts(paths@),
                remove.len() == i,
                forall|k: int| 0 <= k < i ==> remove@[k]@ == all[k],
                leftovers_in_front(all) == i + leftovers_in_front(all.skip(i as int)),
            decreases paths.len() - i,
        {
            let found = extension(paths[i].as_str());
            let leftover = match &found {
                Some(ext) => same_text(ext.as_str(), "in") || same_text(ext.as_str(), "out"),
                None => false,
            };
            proof {
                assert(all.skip(i as int)[0] == paths[i as int]@);
                assert(all.skip(i as int).skip(1) =~= all.skip(i + 1));
            }
            if !leftover {
                assert(texts(remove@) =~= all.take(i as int));
                let plan = CleanPlan {
                    remove,
                    refused: Some(Refusal { path: paths[i].clone(), extension: found }),
                };
                assert(plan@.refused->0.extension =~= extension_of(all[i as int]));
                return plan;
            }
            remove.push(paths[i].clone());
            i += 1;
        }
        assert(texts(remove@) =~= all.take(i as int));
        CleanPlan { remove, refused: None }
    }
}

/// What is done to the directories under `test_path` before a test run.
#[derive(Debug)]
pub struct InitPlan {
    /// The directories to create where they are missing, in order.
    pub create: Vec<String>,
    /// The directories to clear of leftovers, in order.
    pub clean: Vec<String>,
}

/// Plans the start of a test run under `test_path`: the directories of the
/// layout are created first, then the test cases, the stored outputs and the
/// binaries of an earlier run are cleared.
pub fn init(test_path: &str) -> (plan: InitPlan)
    ensures
        texts(plan.create@) == init_dirs(test_path@),
        texts(plan.clean@) == cleaned_dirs(test_path@),
{
    let create = MyFileIO::make_init_dir(test_path);
    let mut bin = String::from_str(test_path);
    bin.append("/cpstt_out/bin/");
    let mut clean: Vec<String> = Vec::new();
    clean.push(join(test_path, "testcase"));
    clean.push(join(test_path, "cpstt_out/smart"));
    clean.push(join(test_path, "cpstt_out/stupid"));
    clean.push(bin);
    assert(texts(clean@) =~= cleaned_dirs(test_path@));
    InitPlan { create, clean }
}

} // verus!
