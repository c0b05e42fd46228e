//! Diagnostics from command-line checkers, chosen by file extension.

use vstd::prelude::*;
use vstd::string::*;
use crate::methods::LspDiagnostic;
use crate::text::{lines_of, text_lines};

verus! {

/// A command to run and its arguments.
pub struct CheckCommand {
    pub program: String,
    pub args: Vec<String>,
}

/// The checker for a file with extension `ext` at `path`: the Rust, the
/// TypeScript/JavaScript or the Python toolchain; none for other files.
pub fn check_command(ext: &str, path: &str) -> (r: Option<CheckCommand>)
    ensures
        ext@ == "rs"@ ==> (r matches Some(c) && c.program@ == "cargo"@ && c.args@.len() == 2
            && c.args@[0]@ == "check"@ && c.args@[1]@ == "--message-format=json"@),
        (ext@ == "ts"@ || ext@ == "tsx"@ || ext@ == "js"@ || ext@ == "jsx"@) ==> (r matches Some(c)
            && c.program@ == "npx"@ && c.args@.len() == 2 && c.args@[0]@ == "tsc"@ && c.args@[1]@
            == "--noEmit"@),
        ext@ == "py"@ ==> (r matches Some(c) && c.program@ == "python3"@ && c.args@.len() == 3
            && c.args@[0]@ == "-m"@ && c.args@[1]@ == "py_compile"@ && c.args@[2]@ == path@),
        !(ext@ == "rs"@ || ext@ == "ts"@ || ext@ == "tsx"@ || ext@ == "js"@ || ext@ == "jsx"@ || ext@
            == "py"@) ==> r is None,
{
    proof {
        reveal_strlit("rs");
        reveal_strlit("ts");
        reveal_strlit("tsx");
        reveal_strlit("js");
        reveal_strlit("jsx");
        reveal_strlit("py");
        assert("ts"@[0] != "rs"@[0] && "js"@[0] != "rs"@[0] && "py"@[0] != "rs"@[0]);
        assert("py"@[0] != "ts"@[0] && "py"@[0] != "js"@[0]);
        assert("tsx"@.len() != "rs"@.len() && "jsx"@.len() != "rs"@.len());
        assert("tsx"@.len() != "py"@.len() && "jsx"@.len() != "py"@.len());
    }
    let e = ext.to_owned();
    if e == "rs".to_owned() {
        let mut args: Vec<String> = Vec::new();
        args.push("check".to_owned());
        args.push("--message-format=json".to_owned());
        Some(CheckCommand { program: "cargo".to_owned(), args })
    } else if e == "ts".to_owned() || e == "tsx".to_owned() || e == "js".to_owned() || e
        == "jsx".to_owned() {
        let mut args: Vec<String> = Vec::new();
        args.push("tsc".to_owned());
        args.push("--noEmit".to_owned());
        Some(CheckCommand { program: "npx".to_owned(), args })
    } else if e == "py".to_owned() {
        let mut args: Vec<String> = Vec::new();
        args.push("-m".to_owned());
        args.push("py_compile".to_owned());
        args.push(path.to_owned());
        Some(CheckCommand { program: "python3".to_owned(), args })
    } else {
        None
    }
}

/// The non-empty lines among the first ten.
pub open spec fn first_nonempty_lines(lines: Seq<Seq<char>>) -> Seq<Seq<char>> {
    let head = if lines.len() <= 10 {
        lines
    } else {
        lines.subrange(0, 10)
    };
    head.filter(|l: Seq<char>| l.len() > 0)
}

/// The diagnostics a checker's run gives: none when it succeeded with
/// nothing on its error stream, else one error per non-empty line among the
/// first ten lines of that stream.
pub fn diagnostics_of(stderr: &str, success: bool) -> (r: Vec<LspDiagnostic>)
    ensures
        success && stderr@.len() == 0 ==> r@.len() == 0,
        !(success && stderr@.len() == 0) ==> {
            &&& r@.len() == first_nonempty_lines(lines_of(stderr@)).len()
            &&& forall|i: int|
                0 <= i < r@.len() ==> (#[trigger] r@[i]).message@ == first_nonempty_lines(
                    lines_of(stderr@),
                )[i] && r@[i].severity@ == "error"@
        },
{
    let mut out: Vec<LspDiagnostic> = Vec::new();
    if success && stderr.unicode_len() == 0 {
        return out;
    }
    let lines = text_lines(stderr);
    let ghost ls = lines_of(stderr@);
    let n = if lines.len() <= 10 {
        lines.len()
    } else {
        10
    };
    let ghost head = if ls.len() <= 10 {
        ls
    } else {
        ls.subrange(0, 10)
    };
    assert(head =~= ls.subrange(0, n as int));
    let mut i: usize = 0;
    while i < n
        invariant
            n <= lines@.len(),
            lines@.len() == ls.len(),
            head == ls.subrange(0, n as int),
            forall|k: int| 0 <= k < ls.len() ==> #[trigger] lines@[k]@ == ls[k],
            i <= n,
            out@.len() == head.subrange(0, i as int).filter(|l: Seq<char>| l.len() > 0).len(),
            forall|k: int|
                0 <= k < out@.len() ==> (#[trigger] out@[k]).message@ == head.subrange(0, i as int).filter(
                    |l: Seq<char>| l.len() > 0,
                )[k] && out@[k].severity@ == "error"@,
        decreases n - i,
    {
        proof {
            reveal(Seq::filter);
            assert(head.subrange(0, i + 1).drop_last() =~= head.subrange(0, i as int));
            assert(head.subrange(0, i + 1).last() == lines@[i as int]@);
        }
        if lines[i].unicode_len() > 0 {
            out.push(LspDiagnostic { message: lines[i].clone(), severity: "error".to_owned() });
        }
        i = i + 1;
    }
    assert(head.subrange(0, n as int) =~= head);
    out
}

} // verus!
