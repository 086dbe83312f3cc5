use vstd::prelude::*;

verus! {

/// What the program was asked to do: search `file_path` for `pattern`.
pub struct Config {
    pub file_path: String,
    pub pattern: String,
}

impl Config {
    /// Reads the configuration from the command-line arguments; `args[0]` is
    /// the program's name, `args[1]` the pattern and `args[2]` the file.
    /// Arguments after those are ignored.
    pub fn new(args: Vec<String>) -> (res: Result<Config, &'static str>)
        requires
            args.len() >= 1,
        ensures
            args.len() == 1 ==> res == Err::<Config, &'static str>("No pattern provided"),
            args.len() == 2 ==> res == Err::<Config, &'static str>("No filename provided"),
            args.len() >= 3 ==> (res matches Ok(c) && c.pattern@ == args@[1]@ && c.file_path@
                == args@[2]@),
    {
        if args.len() < 2 {
            return Err("No pattern provided");
        }
        let pattern = args[1].clone();
        if args.len() < 3 {
            return Err("No filename provided");
        }
        let filename = args[2].clone();
        Ok(Config { file_path: filename, pattern: pattern })
    }
}

} // verus!
