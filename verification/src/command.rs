//! The programs that the workflows run.
//!
//! The library starts no process. It says which program is to be run and
//! with which arguments, and leaves the running to its caller.

use crate::text::texts;
use vstd::prelude::*;

verus! {

/// A command line, as contracts speak of it.
pub struct CommandLine {
    pub program: Seq<char>,
    pub args: Seq<Seq<char>>,
}

/// A program and the arguments to run it with.
#[derive(Debug)]
pub struct Invocation {
    pub program: String,
    pub args: Vec<String>,
}

impl View for Invocation {
    type V = CommandLine;

    open spec fn view(&self) -> CommandLine {
        CommandLine { program: self.program@, args: texts(self.args@) }
    }
}

/// `git submodule update --init --recursive`
pub open spec fn submodule_command() -> CommandLine {
    CommandLine {
        program: "git"@,
        args: seq!["submodule"@, "update"@, "--init"@, "--recursive"@],
    }
}

/// `msginit --no-translator -i <pot> -l <lang_id> -o <lang_po>`
pub open spec fn msginit_command(pot: Seq<char>, lang_id: Seq<char>, lang_po: Seq<char>) -> CommandLine {
    CommandLine {
        program: "msginit"@,
        args: seq!["--no-translator"@, "-i"@, pot, "-l"@, lang_id, "-o"@, lang_po],
    }
}

/// `msgmerge --update <lang_po> <pot>`
pub open spec fn msgmerge_command(lang_po: Seq<char>, pot: Seq<char>) -> CommandLine {
    CommandLine { program: "msgmerge"@, args: seq!["--update"@, lang_po, pot] }
}

/// The command that brings the book sources, which are git submodules, up
/// to date.
pub fn update_submodule() -> (r: Invocation)
    ensures
        r@ == submodule_command(),
{
    let r = Invocation {
        program: "git".to_owned(),
        args: vec![
            "submodule".to_owned(),
            "update".to_owned(),
            "--init".to_owned(),
            "--recursive".to_owned(),
        ],
    };
    proof {
        assert(texts(r.args@) =~= submodule_command().args);
    }
    r
}

/// The command that starts the catalog `lang_po` for the language `lang_id`
/// from the template `pot`.
pub fn msginit(pot: &str, lang_id: &str, lang_po: &str) -> (r: Invocation)
    ensures
        r@ == msginit_command(pot@, lang_id@, lang_po@),
{
    let r = Invocation {
        program: "msginit".to_owned(),
        args: vec![
            "--no-translator".to_owned(),
            "-i".to_owned(),
            pot.to_owned(),
            "-l".to_owned(),
            lang_id.to_owned(),
            "-o".to_owned(),
            lang_po.to_owned(),
        ],
    };
    proof {
        assert(texts(r.args@) =~= msginit_command(pot@, lang_id@, lang_po@).args);
    }
    r
}

/// The command that merges the template `pot` into the catalog `lang_po`.
pub fn msgmerge(lang_po: &str, pot: &str) -> (r: Invocation)
    ensures
        r@ == msgmerge_command(lang_po@, pot@),
{
    let r = Invocation {
        program: "msgmerge".to_owned(),
        args: vec!["--update".to_owned(), lang_po.to_owned(), pot.to_owned()],
    };
    proof {
        assert(texts(r.args@) =~= msgmerge_command(lang_po@, pot@).args);
    }
    r
}

} // verus!
