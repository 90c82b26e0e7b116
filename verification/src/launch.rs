//! Starting a game: what is run for an installation, and what a manual
//! entry must hold before it is added to the library.
use vstd::prelude::*;
use crate::emulation::{shell_words, shlex_split};
use crate::models::{opt_view, Installation};
use crate::text::{chars_to_string, concat_chars, owned, same_chars, str_chars, strings_view, trim, trimmed};

verus! {

/// How a game is started.
#[derive(Debug, Clone)]
pub enum LaunchPlan {
    /// Open a `steam://` address and let Steam start the game.
    Steam { uri: String },
    /// Run a program directly.
    Program { executable: String, working_dir: Option<String>, args: Vec<String> },
}

/// What the interface is told after a launch request.
#[derive(Debug, Clone)]
pub struct LaunchResult {
    pub launched: bool,
    pub already_running: bool,
    pub message: String,
}

pub enum PlanView {
    Steam(Seq<char>),
    Program(Seq<char>, Option<Seq<char>>, Seq<Seq<char>>),
}

pub open spec fn plan_view(p: LaunchPlan) -> PlanView {
    match p {
        LaunchPlan::Steam { uri } => PlanView::Steam(uri@),
        LaunchPlan::Program { executable, working_dir, args } => PlanView::Program(
            executable@,
            opt_view(working_dir),
            strings_view(args@),
        ),
    }
}

/// The plan for an installation: a Steam game is opened through its app id;
/// a manual entry runs its executable in its working folder with its
/// arguments split by shell rules; other launchers cannot start games.
pub open spec fn spec_launch_plan(i: Installation) -> Result<PlanView, Seq<char>> {
    if i.provider@ == "steam"@ {
        match i.external_id {
            None => Err("Steam AppID ausente"@),
            Some(id) => Ok(PlanView::Steam("steam://rungameid/"@ + id@)),
        }
    } else if i.provider@ == "manual"@ {
        match i.executable {
            None => Err("Executável não configurado"@),
            Some(exe) => match i.launch_args {
                None => Ok(PlanView::Program(exe@, opt_view(i.working_dir), Seq::empty())),
                Some(a) => match shell_words(a@) {
                    None => Err("Argumentos de inicialização inválidos"@),
                    Some(ws) => Ok(PlanView::Program(exe@, opt_view(i.working_dir), ws)),
                },
            },
        }
    } else {
        Err("O provider '"@ + i.provider@ + "' ainda não possui launcher implementado"@)
    }
}

fn clone_opt(o: &Option<String>) -> (r: Option<String>)
    ensures
        opt_view(r) == opt_view(*o),
{
    match o {
        Some(s) => Some(s.clone()),
        None => None,
    }
}

pub fn launch_plan(installation: &Installation) -> (r: Result<LaunchPlan, String>)
    ensures
        match (r, spec_launch_plan(*installation)) {
            (Ok(p), Ok(q)) => plan_view(p) == q,
            (Err(e), Err(f)) => e@ == f,
            _ => false,
        },
{
    let provider = str_chars(installation.provider.as_str());
    if same_chars(provider.as_slice(), str_chars("steam").as_slice()) {
        match &installation.external_id {
            None => Err(owned("Steam AppID ausente")),
            Some(id) => {
                let uri = concat_chars(
                    str_chars("steam://rungameid/").as_slice(),
                    str_chars(id.as_str()).as_slice(),
                );
                Ok(LaunchPlan::Steam { uri: chars_to_string(uri.as_slice()) })
            },
        }
    } else if same_chars(provider.as_slice(), str_chars("manual").as_slice()) {
        match &installation.executable {
            None => Err(owned("Executável não configurado")),
            Some(exe) => {
                let args = match &installation.launch_args {
                    None => Vec::new(),
                    Some(a) => match shlex_split(a.as_str()) {
                        None => {
                            return Err(owned("Argumentos de inicialização inválidos"));
                        },
                        Some(ws) => ws,
                    },
                };
                proof {
                    if installation.launch_args is None {
                        assert(strings_view(args@) =~= Seq::<Seq<char>>::empty());
                    }
                }
                Ok(
                    LaunchPlan::Program {
                        executable: exe.clone(),
                        working_dir: clone_opt(&installation.working_dir),
                        args,
                    },
                )
            },
        }
    } else {
        let a = concat_chars(str_chars("O provider '").as_slice(), provider.as_slice());
        let b = concat_chars(a.as_slice(), str_chars("' ainda não possui launcher implementado").as_slice());
        Err(chars_to_string(b.as_slice()))
    }
}

/// The answer to a launch request: nothing is started while a session of
/// the game is being tracked.
pub fn launch_result(already_tracking: bool) -> (r: LaunchResult)
    ensures
        r.launched == !already_tracking,
        r.already_running == already_tracking,
        r.message@ == if already_tracking {
            "O Ludex já está acompanhando uma sessão deste jogo."@
        } else {
            "Jogo iniciado. A sessão começará quando o processo real for confirmado."@
        },
{
    if already_tracking {
        LaunchResult {
            launched: false,
            already_running: true,
            message: owned("O Ludex já está acompanhando uma sessão deste jogo."),
        }
    } else {
        LaunchResult {
            launched: true,
            already_running: false,
            message: owned("Jogo iniciado. A sessão começará quando o processo real for confirmado."),
        }
    }
}

/// A manual library entry as it is stored.
#[derive(Debug, Clone)]
pub struct ManualGame {
    pub title: String,
    pub platform: String,
    pub executable: Option<String>,
    pub working_dir: Option<String>,
    pub launch_args: Option<String>,
}

/// An optional field counts only when it is not blank; it is kept as typed.
pub open spec fn non_blank(o: Option<Seq<char>>) -> Option<Seq<char>> {
    match o {
        Some(s) if trim(s).len() > 0 => Some(s),
        _ => None,
    }
}

pub open spec fn opt_str(o: Option<&str>) -> Option<Seq<char>> {
    match o {
        Some(s) => Some(s@),
        None => None,
    }
}

fn non_blank_exec(o: Option<&str>) -> (r: Option<String>)
    ensures
        opt_view(r) == non_blank(opt_str(o)),
{
    match o {
        Some(s) => {
            if trimmed(str_chars(s).as_slice()).len() > 0 {
                Some(owned(s))
            } else {
                None
            }
        },
        None => None,
    }
}

/// Checks a manual entry: the title must not be blank; title and platform
/// are trimmed; blank optional fields are dropped.
pub fn manual_game(
    title: &str,
    platform: &str,
    executable: Option<&str>,
    working_dir: Option<&str>,
    launch_args: Option<&str>,
) -> (r: Result<ManualGame, String>)
    ensures
        trim(title@).len() == 0 <==> r is Err,
        r matches Err(e) ==> e@ == "O título não pode ser vazio"@,
        r matches Ok(g) ==> {
            &&& g.title@ == trim(title@)
            &&& g.platform@ == trim(platform@)
            &&& opt_view(g.executable) == non_blank(opt_str(executable))
            &&& opt_view(g.working_dir) == non_blank(opt_str(working_dir))
            &&& opt_view(g.launch_args) == non_blank(opt_str(launch_args))
        },
{
    let t = trimmed(str_chars(title).as_slice());
    if t.len() == 0 {
        return Err(owned("O título não pode ser vazio"));
    }
    let p = trimmed(str_chars(platform).as_slice());
    Ok(
        ManualGame {
            title: chars_to_string(t.as_slice()),
            platform: chars_to_string(p.as_slice()),
            executable: non_blank_exec(executable),
            working_dir: non_blank_exec(working_dir),
            launch_args: non_blank_exec(launch_args),
        },
    )
}

} // verus!
