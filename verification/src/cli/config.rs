//! `config`: the configuration file.

use vstd::prelude::*;
use vstd::string::*;

use super::reply::{says, Reply};
use crate::text;

verus! {

/// The usage text.
pub const CONFIG_USAGE: &'static str = "Usage: clhorde-cli config <path|edit|init>\n  path          Print config file path\n  edit          Open config in $EDITOR\n  init [--force] Create config with defaults\n";

/// The complaint where the place of the file is not known.
pub const NO_PATH: &'static str = "Cannot determine config path.\n";

/// A command on the configuration file.
#[derive(Debug, Clone, Copy, PartialEq, Eq, Structural)]
pub enum ConfigCommand {
    Path,
    Edit,
    Init { force: bool },
}

/// Whether `r` is what the arguments come to.
pub open spec fn config_asked(a: Seq<Seq<char>>, r: Result<ConfigCommand, Reply>) -> bool {
    if a.len() > 0 && a[0] == "path"@ {
        r == Ok::<ConfigCommand, Reply>(ConfigCommand::Path)
    } else if a.len() > 0 && a[0] == "edit"@ {
        r == Ok::<ConfigCommand, Reply>(ConfigCommand::Edit)
    } else if a.len() > 0 && a[0] == "init"@ {
        r == Ok::<ConfigCommand, Reply>(
            ConfigCommand::Init { force: a.len() > 1 && a[1] == "--force"@ },
        )
    } else {
        r matches Err(x) && says(x, 1, Seq::empty(), CONFIG_USAGE@)
    }
}

/// The command that the arguments of `config` ask for.
pub fn cmd_config(args: &[String]) -> (r: Result<ConfigCommand, Reply>)
    ensures
        config_asked(text::texts(args@), r),
{
    if args.len() == 0 {
        return Err(Reply::failure(text::owned(CONFIG_USAGE)));
    }
    let name: &str = args[0].as_str();
    proof {
        assert(text::texts(args@)[0] == name@);
        if args@.len() > 1 {
            assert(text::texts(args@)[1] == args@[1]@);
        }
    }
    if text::same(name, "path") {
        Ok(ConfigCommand::Path)
    } else if text::same(name, "edit") {
        Ok(ConfigCommand::Edit)
    } else if text::same(name, "init") {
        let force: bool = args.len() > 1 && text::same(args[1].as_str(), "--force");
        Ok(ConfigCommand::Init { force })
    } else {
        Err(Reply::failure(text::owned(CONFIG_USAGE)))
    }
}

/// Print the place of the configuration file.
pub fn config_path(path: &Option<String>) -> (r: Reply)
    ensures
        match *path {
            Some(p) => says(r, 0, p@ + "\n"@, Seq::empty()),
            None => says(r, 1, Seq::empty(), NO_PATH@),
        },
{
    match path {
        Some(p) => Reply::success(text::cat2(p.as_str(), "\n")),
        None => Reply::failure(text::owned(NO_PATH)),
    }
}

/// What to do first when the configuration file is to be edited.
#[derive(Debug, PartialEq)]
pub struct EditStart {
    pub path: String,
    /// Whether the file is to be created first.
    pub create: bool,
}

/// What to do first when the configuration file is to be edited.
pub fn config_edit(path: &Option<String>, exists: bool) -> (r: Result<EditStart, Reply>)
    ensures
        match *path {
            Some(p) => r matches Ok(s) && s.path@ == p@ && s.create == !exists,
            None => r matches Err(x) && says(x, 1, Seq::empty(), NO_PATH@),
        },
{
    match path {
        Some(p) => Ok(EditStart { path: p.clone(), create: !exists }),
        None => Err(Reply::failure(text::owned(NO_PATH))),
    }
}

/// The failure to create the file that was to be edited.
pub fn create_failed(error: &str) -> (r: Reply)
    ensures
        says(r, 1, Seq::empty(), "Failed to create config file: "@ + error@ + "\n"@),
{
    Reply::failure(text::cat3("Failed to create config file: ", error, "\n"))
}

/// What to print after the editor ran: nothing, where it could be started.
pub fn config_edited(editor: &str, run: &Result<bool, String>) -> (r: Reply)
    ensures
        match *run {
            Ok(success) => says(
                r,
                if success {
                    0
                } else {
                    1
                },
                Seq::empty(),
                Seq::empty(),
            ),
            Err(e) => says(
                r,
                1,
                Seq::empty(),
                "Failed to open editor '"@ + editor@ + "': "@ + e@ + "\n"@,
            ),
        },
{
    match run {
        Ok(success) => {
            let nothing: String = String::new();
            proof {
                assert(nothing@ =~= Seq::<char>::empty());
            }
            if *success {
                Reply::success(nothing)
            } else {
                Reply::failure(nothing)
            }
        },
        Err(e) => Reply::failure(
            text::cat5("Failed to open editor '", editor, "': ", e.as_str(), "\n"),
        ),
    }
}

/// Whether `r` is the path at which a configuration may be written, or what is
/// said instead.
pub open spec fn init_is(
    r: Result<String, Reply>,
    path: Option<Seq<char>>,
    is_there: bool,
    force: bool,
) -> bool {
    match path {
        None => r matches Err(x) && says(x, 1, Seq::empty(), NO_PATH@),
        Some(p) => if is_there && !force {
            r matches Err(x) && says(
                x,
                1,
                Seq::empty(),
                "Config file already exists: "@ + p + "\nUse --force to overwrite.\n"@,
            )
        } else {
            r matches Ok(q) && q@ == p
        },
    }
}

/// The file to create with the defaults, unless there is one.
pub fn config_init(path: &Option<String>, exists: bool, force: bool) -> (r: Result<String, Reply>)
    ensures
        init_is(r, text::text_option(*path), exists, force),
{
    match path {
        None => Err(Reply::failure(text::owned(NO_PATH))),
        Some(p) => {
            if exists && !force {
                return Err(
                    Reply::failure(
                        text::cat3(
                            "Config file already exists: ",
                            p.as_str(),
                            "\nUse --force to overwrite.\n",
                        ),
                    ),
                );
            }
            Ok(p.clone())
        },
    }
}

/// What to print after the file was to be created.
pub fn config_created(path: &str, written: &Result<(), String>) -> (r: Reply)
    ensures
        match *written {
            Ok(_) => says(r, 0, "Created config: "@ + path@ + "\n"@, Seq::empty()),
            Err(e) => says(r, 1, Seq::empty(), "Failed to write config: "@ + e@ + "\n"@),
        },
{
    match written {
        Ok(_) => Reply::success(text::cat3("Created config: ", path, "\n")),
        Err(e) => Reply::failure(text::cat3("Failed to write config: ", e.as_str(), "\n")),
    }
}

/// A configuration that is there is written over only by force; one that is not
/// there is written at its path.
pub proof fn configurations_are_not_lost(
    r: Result<String, Reply>,
    path: Option<Seq<char>>,
    is_there: bool,
    force: bool,
)
    requires
        init_is(r, path, is_there, force),
    ensures
        r is Ok <==> path is Some && (!is_there || force),
        r matches Ok(p) ==> path == Some(p@),
        r matches Err(x) ==> x.code == 1,
{
}

/// `path`, `edit` and `init` are what they say, and `--force` counts right
/// behind `init` alone; anything else is refused.
pub proof fn config_commands_go_by_their_words(
    a: Seq<Seq<char>>,
    r: Result<ConfigCommand, Reply>,
)
    requires
        config_asked(a, r),
    ensures
        r == Ok::<ConfigCommand, Reply>(ConfigCommand::Path) <==> a.len() > 0 && a[0] == "path"@,
        r == Ok::<ConfigCommand, Reply>(ConfigCommand::Edit) <==> a.len() > 0 && a[0] == "edit"@,
        r == Ok::<ConfigCommand, Reply>(ConfigCommand::Init { force: true }) <==> a.len() > 1
            && a[0] == "init"@ && a[1] == "--force"@,
        r == Ok::<ConfigCommand, Reply>(ConfigCommand::Init { force: false }) <==> a.len() > 0
            && a[0] == "init"@ && !(a.len() > 1 && a[1] == "--force"@),
{
    reveal_strlit("path");
    reveal_strlit("edit");
    reveal_strlit("init");
    assert("path"@[0] == 'p' && "edit"@[0] == 'e' && "init"@[0] == 'i');
}

} // verus!
