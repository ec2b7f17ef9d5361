use vstd::prelude::*;
use vstd::string::*;

verus! {

/// The directory scanned when none is given on the command line.
pub const DEFAULT_DIRECTORY: &'static str = "./";

/// The directory to scan: the first argument after the program name, or the
/// current directory.
pub fn directory_argument(args: &Vec<String>) -> (r: String)
    ensures
        args@.len() < 2 ==> r@ == DEFAULT_DIRECTORY@,
        args@.len() >= 2 ==> r@ == args@[1]@,
{
    if args.len() < 2 {
        String::from_str(DEFAULT_DIRECTORY)
    } else {
        args[1].clone()
    }
}

/// The file to write the results to: the second argument after the program
/// name, whenever one is given; otherwise the results are printed.
pub fn output_file_argument(args: &Vec<String>) -> (r: Option<String>)
    ensures
        args@.len() >= 3 ==> r is Some && r->0@ == args@[2]@,
        args@.len() < 3 ==> r is None,
{
    if args.len() >= 3 {
        Some(args[2].clone())
    } else {
        None
    }
}

} // verus!
