//! Where the scripts of a server are found.
use vstd::prelude::*;

verus! {

/// The directory of the scripts: the first argument after the program's name, or
/// the current directory where there is none.
pub fn get_init_dir(args: &Vec<String>, current_dir: String) -> (r: String)
    ensures
        r@ == if args@.len() < 2 {
            current_dir@
        } else {
            args@[1]@
        },
{
    if args.len() < 2 {
        current_dir
    } else {
        args[1].clone()
    }
}

/// The script that sets the server up: its name comes right behind the directory,
/// with nothing in between.
pub fn setup_path(dir: String) -> (r: String)
    ensures
        r@ == dir@ + "setup.js"@,
{
    dir.concat("setup.js")
}

/// With an argument the directory is that argument, whatever the current directory
/// is; without one it is the current directory.
pub proof fn law_an_argument_is_the_directory(args: Vec<String>, current_dir: String, r: String)
    requires
        call_ensures(get_init_dir, (&args, current_dir), r),
    ensures
        args@.len() >= 2 ==> r@ == args@[1]@,
        args@.len() < 2 ==> r@ == current_dir@,
{
}

/// The path of the script starts with the whole directory, and what follows is the
/// name of the script.
pub proof fn law_script_is_right_behind_the_directory(dir: String, r: String)
    requires
        call_ensures(setup_path, (dir,), r),
    ensures
        r@.len() == dir@.len() + 8,
        r@.take(dir@.len() as int) == dir@,
        r@.skip(dir@.len() as int) == seq!['s', 'e', 't', 'u', 'p', '.', 'j', 's'],
{
    reveal_strlit("setup.js");
    assert("setup.js"@ =~= seq!['s', 'e', 't', 'u', 'p', '.', 'j', 's']);
    assert(r@.take(dir@.len() as int) =~= dir@);
    assert(r@.skip(dir@.len() as int) =~= "setup.js"@);
}

/// Any directory has a script, and any arguments name a directory.
pub proof fn law_any_directory_has_a_script(args: Vec<String>, dir: String)
    ensures
        call_requires(get_init_dir, (&args, dir)),
        call_requires(setup_path, (dir,)),
{
}

} // verus!
