//! The commands that buttons and sliders run, as plain data.

use vstd::prelude::*;
use vstd::string::*;

use crate::text::texts;

verus! {

/// What the process environment says about the logged-in user and their
/// session. A variable that is unset, or that is no text, is absent.
pub struct Environment {
    pub sudo_user: Option<String>,
    pub sudo_uid: Option<String>,
    pub wayland_display: Option<String>,
    pub xdg_runtime_dir: Option<String>,
    pub hyprland_instance_signature: Option<String>,
    /// Whether `XDG_RUNTIME_DIR` is set at all, text or not.
    pub xdg_runtime_dir_set: bool,
    /// The effective user id of this process.
    pub euid: u32,
}

/// A program to start, with its arguments and the variables that are added to
/// its environment.
pub struct CommandPlan {
    pub program: String,
    pub args: Vec<String>,
    pub vars: Vec<(String, String)>,
}

/// The mathematical counterpart of [`CommandPlan`].
#[verifier::ext_equal]
pub struct CommandView {
    pub program: Seq<char>,
    pub args: Seq<Seq<char>>,
    pub vars: Seq<(Seq<char>, Seq<char>)>,
}

/// The names and values of variables.
pub open spec fn pairs(v: Seq<(String, String)>) -> Seq<(Seq<char>, Seq<char>)> {
    Seq::new(v.len(), |i: int| (v[i].0@, v[i].1@))
}

impl View for CommandPlan {
    type V = CommandView;

    open spec fn view(&self) -> CommandView {
        CommandView { program: self.program@, args: texts(self.args@), vars: pairs(self.vars@) }
    }
}

/// The text of an optional string.
pub open spec fn text_opt(s: Option<String>) -> Option<Seq<char>> {
    match s {
        Some(t) => Some(t@),
        None => None,
    }
}

/// A shell command line, run as another user where one is given.
pub open spec fn shell_argv(user: Option<Seq<char>>, line: Seq<char>) -> (Seq<char>, Seq<Seq<char>>) {
    match user {
        Some(u) => ("sudo"@, seq!["-u"@, u, "sh"@, "-c"@, line]),
        None => ("sh"@, seq!["-c"@, line]),
    }
}

/// A variable that is passed on where it is set.
pub open spec fn passed(
    vars: Seq<(Seq<char>, Seq<char>)>,
    name: Seq<char>,
    value: Option<Seq<char>>,
) -> Seq<(Seq<char>, Seq<char>)> {
    match value {
        Some(v) => vars.push((name, v)),
        None => vars,
    }
}

/// The session variables that every command gets, as far as they are set.
pub open spec fn session_vars(env: Environment) -> Seq<(Seq<char>, Seq<char>)> {
    passed(
        passed(
            passed(Seq::empty(), "WAYLAND_DISPLAY"@, text_opt(env.wayland_display)),
            "XDG_RUNTIME_DIR"@,
            text_opt(env.xdg_runtime_dir),
        ),
        "HYPRLAND_INSTANCE_SIGNATURE"@,
        text_opt(env.hyprland_instance_signature),
    )
}

/// What a press of a button with this command runs: as the user behind `sudo`
/// where both their name and their id are known.
pub open spec fn pressed_command(line: Seq<char>, env: Environment) -> CommandView {
    let user = if env.sudo_uid is Some {
        text_opt(env.sudo_user)
    } else {
        None
    };
    let argv = shell_argv(user, line);
    CommandView { program: argv.0, args: argv.1, vars: session_vars(env) }
}

/// Adds a variable where it is set.
fn pass(vars: &mut Vec<(String, String)>, name: &str, value: &Option<String>)
    ensures
        pairs(final(vars)@) == passed(pairs(old(vars)@), name@, text_opt(*value)),
{
    match value {
        Some(v) => {
            vars.push((name.to_owned(), v.clone()));
            assert(pairs(vars@) =~= pairs(old(vars)@).push((name@, v@)));
        },
        None => {},
    }
}

/// A command line for the shell, run as another user where one is given, with
/// the session variables.
pub(crate) fn shell_plan(user: &Option<String>, line: &str, env: &Environment) -> (r: CommandPlan)
    ensures
        ({
            let argv = shell_argv(text_opt(*user), line@);
            r@ == (CommandView { program: argv.0, args: argv.1, vars: session_vars(*env) })
        }),
{
    let mut args: Vec<String> = Vec::new();
    let program = match user {
        Some(u) => {
            args.push("-u".to_owned());
            args.push(u.clone());
            args.push("sh".to_owned());
            args.push("-c".to_owned());
            args.push(line.to_owned());
            "sudo".to_owned()
        },
        None => {
            args.push("-c".to_owned());
            args.push(line.to_owned());
            "sh".to_owned()
        },
    };
    assert(texts(args@) =~= shell_argv(text_opt(*user), line@).1);
    let mut vars: Vec<(String, String)> = Vec::new();
    assert(pairs(vars@) =~= Seq::empty());
    pass(&mut vars, "WAYLAND_DISPLAY", &env.wayland_display);
    pass(&mut vars, "XDG_RUNTIME_DIR", &env.xdg_runtime_dir);
    pass(&mut vars, "HYPRLAND_INSTANCE_SIGNATURE", &env.hyprland_instance_signature);
    CommandPlan { program, args, vars }
}

/// Plans the command of a button that is pressed.
pub fn press_command(line: &str, env: &Environment) -> (r: CommandPlan)
    ensures
        r@ == pressed_command(line@, *env),
{
    let user: Option<String> = if env.sudo_uid.is_some() {
        env.sudo_user.clone()
    } else {
        None
    };
    shell_plan(&user, line, env)
}

/// A button's command is handed to the shell as it is, as the last argument: to
/// the shell itself, or to that of the user behind `sudo` where their name and
/// their id are known.
pub proof fn command_goes_to_the_shell(line: Seq<char>, env: Environment)
    ensures
        ({
            let c = pressed_command(line, env);
            &&& c.args.last() == line
            &&& env.sudo_uid is Some && env.sudo_user is Some ==> {
                &&& c.program == "sudo"@
                &&& c.args == seq!["-u"@, (env.sudo_user->0)@, "sh"@, "-c"@, line]
            }
            &&& env.sudo_uid is None || env.sudo_user is None ==> {
                &&& c.program == "sh"@
                &&& c.args == seq!["-c"@, line]
            }
        }),
{
}

/// A command gets each of the three session variables exactly where it is set,
/// with its value, and no other one.
pub proof fn session_is_passed_on(line: Seq<char>, env: Environment)
    ensures
        ({
            let vars = pressed_command(line, env).vars;
            let set = |v: Option<String>| if v is Some {
                1int
            } else {
                0
            };
            &&& env.wayland_display matches Some(v) ==> vars.contains(("WAYLAND_DISPLAY"@, v@))
            &&& env.xdg_runtime_dir matches Some(v) ==> vars.contains(("XDG_RUNTIME_DIR"@, v@))
            &&& env.hyprland_instance_signature matches Some(v) ==> vars.contains(
                ("HYPRLAND_INSTANCE_SIGNATURE"@, v@),
            )
            &&& vars.len() == set(env.wayland_display) + set(env.xdg_runtime_dir) + set(
                env.hyprland_instance_signature,
            )
        }),
{
    let a = passed(Seq::empty(), "WAYLAND_DISPLAY"@, text_opt(env.wayland_display));
    let b = passed(a, "XDG_RUNTIME_DIR"@, text_opt(env.xdg_runtime_dir));
    let c = passed(
        b,
        "HYPRLAND_INSTANCE_SIGNATURE"@,
        text_opt(env.hyprland_instance_signature),
    );
    assert(c == pressed_command(line, env).vars);
    if env.wayland_display is Some {
        assert(a[0] == ("WAYLAND_DISPLAY"@, (env.wayland_display->0)@));
        assert(b[0] == a[0]);
        assert(c[0] == a[0]);
    }
    if env.xdg_runtime_dir is Some {
        assert(b[b.len() - 1] == ("XDG_RUNTIME_DIR"@, (env.xdg_runtime_dir->0)@));
        assert(c[b.len() - 1] == b[b.len() - 1]);
    }
    if env.hyprland_instance_signature is Some {
        assert(c[c.len() - 1] == (
            "HYPRLAND_INSTANCE_SIGNATURE"@,
            (env.hyprland_instance_signature->0)@,
        ));
    }
}

} // verus!
