//! Selection of the watched root from the leading command-line
//! arguments: the decision only. Reading the process's argument list,
//! printing the usage text and exiting are the caller's.

use vstd::prelude::*;
use crate::bytes::bytes_eq;
use crate::bytes::clone_bytes;
use crate::paths::inbox_root;
use crate::paths::spec_inbox_root;

verus! {

/// The option that selects the watched root, `-d`, in textual form.
pub open spec fn spec_dir_flag() -> Seq<u8> {
    seq![45u8, 100u8]
}

fn dir_flag() -> (r: Vec<u8>)
    ensures
        r@ == spec_dir_flag(),
{
    let mut v: Vec<u8> = Vec::new();
    v.push(45);
    v.push(100);
    proof {
        assert(v@ =~= spec_dir_flag());
    }
    v
}

/// What the leading arguments call for.
#[derive(Debug)]
pub enum CliChoice {
    /// Watch this directory.
    Root(Vec<u8>),
    /// Print the usage text and exit with a non-zero status.
    Usage,
}

/// The watched root chosen by the arguments (program name already
/// stripped): no argument means the default inbox root; `-d` followed by
/// a directory chooses that directory; anything else calls for the usage
/// text.
pub fn parse_args(args: &Vec<Vec<u8>>) -> (r: CliChoice)
    ensures
        args@.len() == 0 ==> (r matches CliChoice::Root(d) && d@ == spec_inbox_root()),
        args@.len() >= 2 && args@[0]@ == spec_dir_flag() ==> (r matches CliChoice::Root(d) && d@
            == args@[1]@),
        args@.len() == 1 && args@[0]@ == spec_dir_flag() ==> r matches CliChoice::Usage,
        args@.len() >= 1 && args@[0]@ != spec_dir_flag() ==> r matches CliChoice::Usage,
{
    if args.len() == 0 {
        return CliChoice::Root(inbox_root());
    }
    let flag = dir_flag();
    if bytes_eq(&args[0], &flag) {
        if args.len() >= 2 {
            CliChoice::Root(clone_bytes(&args[1]))
        } else {
            CliChoice::Usage
        }
    } else {
        CliChoice::Usage
    }
}

} // verus!
