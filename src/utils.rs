use crate::args::ShellType;
use vstd::prelude::*;
use vstd::string::*;

verus! {

/// Adds `item` unless it is already there.
pub fn set_item_in_vec(list: &mut Vec<usize>, item: usize)
    ensures
        final(list)@ == if old(list)@.contains(item) {
            old(list)@
        } else {
            old(list)@.push(item)
        },
{
    if !vec_contains(list, item) {
        list.push(item);
    }
}

/// Removes every occurrence of `item`, keeping the order of the rest.
pub fn remove_item_from_vec(list: &mut Vec<usize>, item: usize)
    ensures
        final(list)@ == old(list)@.filter(|x: usize| x != item),
{
    let mut kept: Vec<usize> = Vec::new();
    let mut i: usize = 0;
    while i < list.len()
        invariant
            i <= list@.len(),
            list@ == old(list)@,
            kept@ == list@.subrange(0, i as int).filter(|x: usize| x != item),
        decreases list@.len() - i,
    {
        let ghost pre = list@.subrange(0, i as int);
        assert(list@.subrange(0, i + 1).drop_last() =~= pre);
        reveal(Seq::filter);
        if list[i] != item {
            kept.push(list[i]);
        }
        i = i + 1;
    }
    assert(list@.subrange(0, list@.len() as int) =~= list@);
    *list = kept;
}

/// Removes `item` if present, else adds it.
pub fn toggle_item_in_vec(list: &mut Vec<usize>, item: usize)
    ensures
        final(list)@ == if old(list)@.contains(item) {
            old(list)@.filter(|x: usize| x != item)
        } else {
            old(list)@.push(item)
        },
{
    if vec_contains(list, item) {
        remove_item_from_vec(list, item)
    } else {
        set_item_in_vec(list, item)
    }
}

/// Whether `item` is in `list`.
pub fn vec_contains(list: &Vec<usize>, item: usize) -> (r: bool)
    ensures
        r == list@.contains(item),
{
    let mut i: usize = 0;
    while i < list.len()
        invariant
            i <= list@.len(),
            forall|k: int| 0 <= k < i ==> list@[k] != item,
        decreases list@.len() - i,
    {
        if list[i] == item {
            return true;
        }
        i = i + 1;
    }
    false
}

/// The program's own directory under the home directory `home`.
pub fn rgm_dir(home: &str) -> (r: String)
    ensures
        r@ == home@ + "/.rgm"@,
{
    let mut r = String::from_str(home);
    r.append("/.rgm");
    r
}

/// The log file inside the program's directory `dir`.
pub fn log_file(dir: &str) -> (r: String)
    ensures
        r@ == dir@ + "/rgm.log"@,
{
    let mut r = String::from_str(dir);
    r.append("/rgm.log");
    r
}

/// The cache file inside the program's directory `dir`.
pub fn config_file(dir: &str) -> (r: String)
    ensures
        r@ == dir@ + "/rgm.conf"@,
{
    let mut r = String::from_str(dir);
    r.append("/rgm.conf");
    r
}

/// The shell-integration file inside the program's directory `dir`.
pub fn shell_file(dir: &str) -> (r: String)
    ensures
        r@ == dir@ + "/rgm.sh"@,
{
    let mut r = String::from_str(dir);
    r.append("/rgm.sh");
    r
}

/// Script written to the shell-integration file on confirm: change into `path`.
pub fn jump_script(path: &str) -> (r: String)
    ensures
        r@ == "#!/bin/sh\ncd "@ + path@,
{
    let mut r = String::from_str("#!/bin/sh\ncd ");
    r.append(path);
    r
}

pub open spec fn zsh_text() -> Seq<char> {
    "\n# Welcome to RGM!\n\nfunction rgm(){\n    rgm-bin \"$@\"\n    source $HOME/.rgm/rgm.sh\n}\n\n# To init rgm, add the following line to your $HOME/.zshrc:\n#\n# eval \"$(rgm-bin init zsh)\"\n"@
}

pub open spec fn bash_text() -> Seq<char> {
    "\n# Welcome to RGM!\n\nfunction rgm(){\n    rgm-bin \"$@\"\n    source $HOME/.rgm/rgm.sh\n}\n\n# To init rgm, add the following line to your $HOME/.bashrc:\n#\n# eval \"$(rgm-bin init bash)\"\n"@
}

/// Shell-wrapper source text for zsh.
pub fn zsh_init() -> (r: &'static str)
    ensures
        r@ == zsh_text(),
{
    "\n# Welcome to RGM!\n\nfunction rgm(){\n    rgm-bin \"$@\"\n    source $HOME/.rgm/rgm.sh\n}\n\n# To init rgm, add the following line to your $HOME/.zshrc:\n#\n# eval \"$(rgm-bin init zsh)\"\n"
}

/// Shell-wrapper source text for bash.
pub fn bash_init() -> (r: &'static str)
    ensures
        r@ == bash_text(),
{
    "\n# Welcome to RGM!\n\nfunction rgm(){\n    rgm-bin \"$@\"\n    source $HOME/.rgm/rgm.sh\n}\n\n# To init rgm, add the following line to your $HOME/.bashrc:\n#\n# eval \"$(rgm-bin init bash)\"\n"
}

/// The shell-wrapper source text for `shell`.
pub fn shell_init(shell: ShellType) -> (r: &'static str)
    ensures
        shell == ShellType::Zsh ==> r@ == zsh_text(),
        shell == ShellType::Bash ==> r@ == bash_text(),
{
    match shell {
        ShellType::Zsh => zsh_init(),
        ShellType::Bash => bash_init(),
    }
}

} // verus!
