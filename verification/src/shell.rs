//! Shell integration: completion scripts that offer the saved profile
//! names, and the optional `cs` function.
use vstd::prelude::*;
use crate::args::Shell;
use crate::names::{valid_profile_name, validate_name};
use crate::text::append_str;

verus! {

/// The zsh completion up to the profile names.
pub const ZSH_HEAD: &'static str = "#compdef codex-switcher\n_codex_switcher() {\n  local -a profiles\n  profiles=(";

/// The zsh completion after the profile names.
pub const ZSH_TAIL: &'static str = ")\n  if (( CURRENT == 2 )); then\n    compadd init add capture login use switch list ls stats current remove rm doctor completion shell-function help version\n  else\n    case \"$words[2]\" in\n      use|switch|stats|remove|rm|add|capture|login) compadd -a profiles ;;\n      completion|shell-function) compadd zsh bash fish ;;\n    esac\n  fi\n}\ncompdef _codex_switcher codex-switcher\n";

/// The bash completion up to the profile names.
pub const BASH_HEAD: &'static str = "_codex_switcher() {\n  local cur=\"${COMP_WORDS[COMP_CWORD]}\"\n  local profiles=\"";

/// The bash completion after the profile names.
pub const BASH_TAIL: &'static str = "\"\n  if [ \"$COMP_CWORD\" -eq 1 ]; then\n    COMPREPLY=($(compgen -W \"init add capture login use switch list ls stats current remove rm doctor completion shell-function help version\" -- \"$cur\"))\n  else\n    case \"${COMP_WORDS[1]}\" in\n      use|switch|stats|remove|rm|add|capture|login) COMPREPLY=($(compgen -W \"$profiles\" -- \"$cur\")) ;;\n      completion|shell-function) COMPREPLY=($(compgen -W \"zsh bash fish\" -- \"$cur\")) ;;\n    esac\n  fi\n}\ncomplete -F _codex_switcher codex-switcher\n";

/// The fish completion up to the profile names.
pub const FISH_HEAD: &'static str = "complete -c codex-switcher -f\ncomplete -c codex-switcher -n __fish_use_subcommand -a 'init add capture login use switch list ls stats current remove rm doctor completion shell-function help version'\ncomplete -c codex-switcher -n '__fish_seen_subcommand_from completion shell-function' -a 'zsh bash fish'\ncomplete -c codex-switcher -n '__fish_seen_subcommand_from use switch stats remove rm add capture login' -a '";

/// The fish completion after the profile names.
pub const FISH_TAIL: &'static str = "'\n";

/// The `cs` function for zsh and bash: `cs <name>` runs `use`, `cs` alone
/// runs `current`.
pub const CS_POSIX: &'static str = "cs() {\n  if [ \"$#\" -eq 0 ]; then\n    codex-switcher current\n  else\n    codex-switcher use \"$@\"\n  fi\n}\n";

/// The `cs` function for fish.
pub const CS_FISH: &'static str = "function cs\n    if test (count $argv) -eq 0\n        codex-switcher current\n    else\n        codex-switcher use $argv\n    end\nend\n";

/// The profile names a completion offers: the valid names among `names`
/// (the first `n` of them), in order, separated by spaces. Names that no
/// command would accept are left out, so no name reaches the shell as
/// anything but a word.
pub open spec fn offered(names: Seq<Seq<char>>, n: int) -> Seq<char>
    decreases n,
{
    if n <= 0 {
        Seq::empty()
    } else {
        let w = offered(names, n - 1);
        let name = names[n - 1];
        if !valid_profile_name(name) {
            w
        } else if w.len() == 0 {
            name
        } else {
            w + " "@ + name
        }
    }
}

/// The text before and after the profile names in a completion script.
pub open spec fn completion_parts(shell: Shell) -> (Seq<char>, Seq<char>) {
    match shell {
        Shell::Zsh => (ZSH_HEAD@, ZSH_TAIL@),
        Shell::Bash => (BASH_HEAD@, BASH_TAIL@),
        Shell::Fish => (FISH_HEAD@, FISH_TAIL@),
    }
}

/// The completion script of a shell for these profile names: it completes
/// the commands, the profile names after the commands that take one, and
/// the shells after `completion` and `shell-function`.
pub open spec fn completion_text(shell: Shell, names: Seq<Seq<char>>) -> Seq<char> {
    completion_parts(shell).0 + offered(names, names.len() as int) + completion_parts(shell).1
}

/// The view of a list of names.
pub open spec fn names_view(names: Seq<String>) -> Seq<Seq<char>> {
    names.map_values(|s: String| s@)
}

/// The completion script of a shell for the saved profile names.
pub fn completion_script(shell: Shell, names: &Vec<String>) -> (r: String)
    ensures
        r@ == completion_text(shell, names_view(names@)),
{
    let ghost ns = names_view(names@);
    let (head, tail): (&str, &str) = match shell {
        Shell::Zsh => (ZSH_HEAD, ZSH_TAIL),
        Shell::Bash => (BASH_HEAD, BASH_TAIL),
        Shell::Fish => (FISH_HEAD, FISH_TAIL),
    };
    let mut words = String::new();
    let mut i: usize = 0;
    while i < names.len()
        invariant
            i <= names@.len(),
            ns == names_view(names@),
            words@ == offered(ns, i as int),
        decreases names@.len() - i,
    {
        let name = names[i].as_str();
        assert(ns[i as int] == name@);
        if validate_name(name).is_ok() {
            if words.unicode_len() > 0 {
                append_str(&mut words, " ");
            }
            append_str(&mut words, name);
            proof {
                if offered(ns, i as int).len() == 0 {
                    assert(Seq::<char>::empty() + name@ =~= name@);
                }
            }
        }
        i = i + 1;
    }
    let mut r = head.to_owned();
    append_str(&mut r, words.as_str());
    append_str(&mut r, tail);
    r
}

/// The `cs` function of a shell.
pub open spec fn shell_function_text(shell: Shell) -> Seq<char> {
    match shell {
        Shell::Fish => CS_FISH@,
        _ => CS_POSIX@,
    }
}

/// The `cs` function of a shell: `cs <name>` runs `codex-switcher use
/// <name>`, `cs` alone runs `codex-switcher current`.
pub fn shell_function(shell: Shell) -> (r: &'static str)
    ensures
        r@ == shell_function_text(shell),
{
    match shell {
        Shell::Fish => CS_FISH,
        _ => CS_POSIX,
    }
}

} // verus!
