//! Command-line options of the repair tool and the behaviour they select.
use vstd::prelude::*;
use crate::text::{chars_of, opt_chars, string_from_chars};

verus! {

/// Global behaviour chosen by the options.
#[derive(Debug, Clone, Copy, Default, PartialEq, Eq, Structural)]
pub struct BehaviorFlags {
    /// Print messages.
    pub verbose: bool,
    /// Ask for confirmation before writing.
    pub ask_user: bool,
}

/// The options of the command line.
#[derive(Debug, Clone)]
pub struct CLIOptions {
    /// Path of the archive to repair.
    pub input: String,
    /// Path of the repaired archive.
    pub output: Option<String>,
    /// `-c`, `--check`: only report whether names are encoded in UTF-8.
    pub check: bool,
    /// `-l`, `--list`: list the names in the archive.
    pub list: bool,
    /// `-s`, `--silent`: print nothing (implies `-y`).
    pub silent: bool,
    /// `-q`, `--quiet`: print nothing (implies `-y`).
    pub quiet: bool,
    /// `-e`, `--encoding ENCODING`: the encoding of the names.
    pub encoding: Option<String>,
    /// `-u`, `--utf8`: try UTF-8 before the legacy encoding.
    pub utf8: bool,
    /// `-y`, `--yes`: do not ask for confirmation.
    pub yes: bool,
    /// `-f`, `--force`: convert even when no conversion is needed.
    pub force: bool,
    /// `-i`, `--in-place`: replace the archive.
    pub in_place: bool,
}

/// What the arguments read so far have set.
pub struct ArgsState {
    pub positionals: Seq<Seq<char>>,
    pub flags: Set<char>,
    pub encoding: Option<Seq<char>>,
    pub awaiting_encoding: bool,
}

/// The one-letter flags (`-e` takes a value and is not among them).
pub open spec fn is_short_flag(c: char) -> bool {
    c == 'c' || c == 'l' || c == 's' || c == 'q' || c == 'u' || c == 'y' || c == 'f' || c == 'i'
}

/// The letter of a long flag.
pub open spec fn long_flag_letter(t: Seq<char>) -> Option<char> {
    if t == "--check"@ {
        Some('c')
    } else if t == "--list"@ {
        Some('l')
    } else if t == "--silent"@ {
        Some('s')
    } else if t == "--quiet"@ {
        Some('q')
    } else if t == "--utf8"@ {
        Some('u')
    } else if t == "--yes"@ {
        Some('y')
    } else if t == "--force"@ {
        Some('f')
    } else if t == "--in-place"@ {
        Some('i')
    } else {
        None
    }
}

pub open spec fn starts_with(t: Seq<char>, prefix: Seq<char>) -> bool {
    prefix.len() <= t.len() && t.subrange(0, prefix.len() as int) == prefix
}

/// Reads the letters of a cluster such as `-qul` or `-esjis` from index `k`.
pub open spec fn read_short_cluster(st: ArgsState, t: Seq<char>, k: int) -> Option<ArgsState>
    decreases t.len() - k,
{
    if k >= t.len() {
        Some(st)
    } else if t[k] == 'e' {
        let rest = t.subrange(k + 1, t.len() as int);
        if rest.len() == 0 {
            Some(ArgsState { awaiting_encoding: true, ..st })
        } else if rest[0] == '=' {
            Some(ArgsState { encoding: Some(rest.drop_first()), ..st })
        } else {
            Some(ArgsState { encoding: Some(rest), ..st })
        }
    } else if is_short_flag(t[k]) {
        read_short_cluster(ArgsState { flags: st.flags.insert(t[k]), ..st }, t, k + 1)
    } else {
        None
    }
}

/// Reads one argument.
pub open spec fn read_arg(st: ArgsState, t: Seq<char>) -> Option<ArgsState> {
    if st.awaiting_encoding {
        if t.len() > 0 && t[0] == '-' {
            None
        } else {
            Some(ArgsState { encoding: Some(t), awaiting_encoding: false, ..st })
        }
    } else if long_flag_letter(t) is Some {
        Some(ArgsState { flags: st.flags.insert(long_flag_letter(t)->0), ..st })
    } else if t == "--encoding"@ {
        Some(ArgsState { awaiting_encoding: true, ..st })
    } else if starts_with(t, "--encoding="@) {
        Some(ArgsState { encoding: Some(t.subrange(11, t.len() as int)), ..st })
    } else if t.len() >= 2 && t[0] == '-' && t[1] == '-' {
        None
    } else if t.len() >= 2 && t[0] == '-' {
        read_short_cluster(st, t, 1)
    } else {
        Some(ArgsState { positionals: st.positionals.push(t), ..st })
    }
}

/// Reads the arguments from index `i` on.
pub open spec fn read_args(st: ArgsState, args: Seq<Seq<char>>, i: int) -> Option<ArgsState>
    decreases args.len() - i,
{
    if i >= args.len() {
        Some(st)
    } else {
        match read_arg(st, args[i]) {
            Some(next) => read_args(next, args, i + 1),
            None => None,
        }
    }
}

pub open spec fn initial_args_state() -> ArgsState {
    ArgsState {
        positionals: Seq::empty(),
        flags: Set::empty(),
        encoding: None,
        awaiting_encoding: false,
    }
}

/// The state after all arguments but the program name, when the command
/// line is acceptable: no value missing, one or two paths.
pub open spec fn parsed_args(args: Seq<Seq<char>>) -> Option<ArgsState> {
    match read_args(initial_args_state(), args, 1) {
        Some(st) => if !st.awaiting_encoding && 1 <= st.positionals.len() <= 2 {
            Some(st)
        } else {
            None
        },
        None => None,
    }
}

pub open spec fn arg_views(args: Seq<&str>) -> Seq<Seq<char>> {
    args.map_values(|a: &str| a@)
}

/// Answers other than those starting with `n` or `N` mean yes.
pub fn process_answer_default_yes(ans: &str) -> (r: bool)
    ensures
        r == !(ans@.len() > 0 && (ans@[0] == 'n' || ans@[0] == 'N')),
{
    let chars = chars_of(ans);
    if chars.len() == 0 {
        return true;
    }
    let c = chars[0];
    !(c == 'n' || c == 'N')
}

impl CLIOptions {
    /// Silent or quiet turns messages off; messages on and no `--yes` asks.
    pub fn to_behavior_flags(&self) -> (r: BehaviorFlags)
        ensures
            r.verbose == (!self.silent && !self.quiet),
            r.ask_user == (!self.silent && !self.quiet && !self.yes),
    {
        let verbose = !self.silent && !self.quiet;
        BehaviorFlags { verbose, ask_user: verbose && !self.yes }
    }
}

/// The options while the arguments are read.
struct ArgsReader {
    positionals: Vec<String>,
    check: bool,
    list: bool,
    silent: bool,
    quiet: bool,
    utf8: bool,
    yes: bool,
    force: bool,
    in_place: bool,
    encoding: Option<String>,
    awaiting_encoding: bool,
}

impl ArgsReader {
    spec fn flag_set(&self) -> Set<char> {
        Set::new(
            |c: char|
                (c == 'c' && self.check) || (c == 'l' && self.list) || (c == 's' && self.silent) || (
                c == 'q' && self.quiet) || (c == 'u' && self.utf8) || (c == 'y' && self.yes) || (c
                == 'f' && self.force) || (c == 'i' && self.in_place),
        )
    }

    spec fn state(&self) -> ArgsState {
        ArgsState {
            positionals: self.positionals@.map_values(|p: String| p@),
            flags: self.flag_set(),
            encoding: opt_chars(self.encoding),
            awaiting_encoding: self.awaiting_encoding,
        }
    }

    fn set_flag(&mut self, c: char)
        requires
            is_short_flag(c),
        ensures
            final(self).state() == (ArgsState { flags: old(self).state().flags.insert(c), ..old(self).state() }),
    {
        if c == 'c' {
            self.check = true;
        } else if c == 'l' {
            self.list = true;
        } else if c == 's' {
            self.silent = true;
        } else if c == 'q' {
            self.quiet = true;
        } else if c == 'u' {
            self.utf8 = true;
        } else if c == 'y' {
            self.yes = true;
        } else if c == 'f' {
            self.force = true;
        } else {
            self.in_place = true;
        }
        assert(self.flag_set() =~= old(self).flag_set().insert(c));
    }

    /// Reads a cluster of one-letter flags from index `k` of `t`.
    fn read_short_cluster(&mut self, t: &Vec<char>, k: usize) -> (r: bool)
        requires
            1 <= k <= t@.len(),
        ensures
            r == read_short_cluster(old(self).state(), t@, k as int) is Some,
            r ==> final(self).state() == read_short_cluster(old(self).state(), t@, k as int)->0,
        decreases t@.len() - k,
    {
        if k >= t.len() {
            return true;
        }
        let c = t[k];
        if c == 'e' {
            let rest_at = if k + 1 < t.len() && t[k + 1] == '=' {
                k + 2
            } else {
                k + 1
            };
            if k + 1 >= t.len() {
                self.awaiting_encoding = true;
            } else {
                self.encoding = Some(chars_from(t, rest_at));
                assert(t@.subrange(k + 1, t@.len() as int).drop_first() =~= t@.subrange(k + 2, t@.len() as int));
            }
            return true;
        }
        if c == 'c' || c == 'l' || c == 's' || c == 'q' || c == 'u' || c == 'y' || c == 'f' || c == 'i' {
            self.set_flag(c);
            return self.read_short_cluster(t, k + 1);
        }
        false
    }

    /// Reads one argument.
    fn read_arg(&mut self, arg: &str) -> (r: bool)
        ensures
            r == read_arg(old(self).state(), arg@) is Some,
            r ==> final(self).state() == read_arg(old(self).state(), arg@)->0,
    {
        let t = chars_of(arg);
        let s = arg.to_owned();
        if self.awaiting_encoding {
            if t.len() > 0 && t[0] == '-' {
                return false;
            }
            self.encoding = Some(s);
            self.awaiting_encoding = false;
            return true;
        }
        let letter = if s == "--check".to_owned() {
            Some('c')
        } else if s == "--list".to_owned() {
            Some('l')
        } else if s == "--silent".to_owned() {
            Some('s')
        } else if s == "--quiet".to_owned() {
            Some('q')
        } else if s == "--utf8".to_owned() {
            Some('u')
        } else if s == "--yes".to_owned() {
            Some('y')
        } else if s == "--force".to_owned() {
            Some('f')
        } else if s == "--in-place".to_owned() {
            Some('i')
        } else {
            None
        };
        if let Some(c) = letter {
            self.set_flag(c);
            return true;
        }
        if s == "--encoding".to_owned() {
            self.awaiting_encoding = true;
            return true;
        }
        let prefix = chars_of("--encoding=");
        proof {
            reveal_strlit("--encoding=");
        }
        if vec_starts_with(&t, &prefix) {
            self.encoding = Some(chars_from(&t, 11));
            return true;
        }
        if t.len() >= 2 && t[0] == '-' && t[1] == '-' {
            return false;
        }
        if t.len() >= 2 && t[0] == '-' {
            return self.read_short_cluster(&t, 1);
        }
        let ghost before = self.positionals@;
        self.positionals.push(s);
        assert(self.positionals@.map_values(|p: String| p@) =~= before.map_values(|p: String| p@).push(arg@));
        true
    }
}

/// Whether `t` starts with `prefix`.
fn vec_starts_with(t: &Vec<char>, prefix: &Vec<char>) -> (r: bool)
    ensures
        r == starts_with(t@, prefix@),
{
    if prefix.len() > t.len() {
        return false;
    }
    let mut i: usize = 0;
    while i < prefix.len()
        invariant
            i <= prefix@.len() <= t@.len(),
            forall|j: int| 0 <= j < i ==> t@[j] == prefix@[j],
        decreases prefix@.len() - i,
    {
        if t[i] != prefix[i] {
            assert(t@.subrange(0, prefix@.len() as int)[i as int] != prefix@[i as int]);
            return false;
        }
        i = i + 1;
    }
    assert(t@.subrange(0, prefix@.len() as int) =~= prefix@);
    true
}

/// The string made of `t[start..]`.
fn chars_from(t: &Vec<char>, start: usize) -> (r: String)
    requires
        start <= t@.len(),
    ensures
        r@ == t@.subrange(start as int, t@.len() as int),
{
    let mut chars: Vec<char> = Vec::new();
    let mut i: usize = start;
    while i < t.len()
        invariant
            start <= i <= t@.len(),
            chars@ == t@.subrange(start as int, i as int),
        decreases t@.len() - i,
    {
        chars.push(t[i]);
        i = i + 1;
        assert(chars@ =~= t@.subrange(start as int, i as int));
    }
    string_from_chars(&chars)
}

impl CLIOptions {
    /// Reads the command line; `args[0]` is the program name.
    ///
    /// Flags may be given long (`--check`) or short (`-c`), short ones
    /// grouped (`-qul`); the encoding follows `-e` or `--encoding`, in the
    /// same argument or the next. The other arguments are the input and the
    /// optional output path.
    pub fn parse_from(args: Vec<&str>) -> (r: Result<CLIOptions, String>)
        ensures
            r is Ok <==> parsed_args(arg_views(args@)) is Some,
            r matches Ok(o) ==> {
                let st = parsed_args(arg_views(args@))->0;
                &&& o.input@ == st.positionals[0]
                &&& opt_chars(o.output) == if st.positionals.len() == 2 {
                    Some(st.positionals[1])
                } else {
                    None
                }
                &&& opt_chars(o.encoding) == st.encoding
                &&& o.check == st.flags.contains('c')
                &&& o.list == st.flags.contains('l')
                &&& o.silent == st.flags.contains('s')
                &&& o.quiet == st.flags.contains('q')
                &&& o.utf8 == st.flags.contains('u')
                &&& o.yes == st.flags.contains('y')
                &&& o.force == st.flags.contains('f')
                &&& o.in_place == st.flags.contains('i')
            },
    {
        let ghost views = arg_views(args@);
        let mut reader = ArgsReader {
            positionals: Vec::new(),
            check: false,
            list: false,
            silent: false,
            quiet: false,
            utf8: false,
            yes: false,
            force: false,
            in_place: false,
            encoding: None,
            awaiting_encoding: false,
        };
        assert(reader.state().positionals =~= Seq::<Seq<char>>::empty());
        assert(reader.state().flags =~= Set::<char>::empty());
        let mut i: usize = 1;
        while i < args.len()
            invariant
                1 <= i,
                i <= args@.len() || args@.len() == 0,
                views == arg_views(args@),
                read_args(initial_args_state(), views, 1) == read_args(reader.state(), views, i as int),
            decreases args@.len() - i,
        {
            if !reader.read_arg(args[i]) {
                return Err("invalid command-line arguments".to_owned());
            }
            i = i + 1;
        }
        if reader.awaiting_encoding {
            return Err("a value is required for --encoding".to_owned());
        }
        if reader.positionals.len() == 0 {
            return Err("the input path is required".to_owned());
        }
        if reader.positionals.len() > 2 {
            return Err("too many paths".to_owned());
        }
        let output = if reader.positionals.len() == 2 {
            Some(reader.positionals.pop().unwrap())
        } else {
            None
        };
        let input = reader.positionals.pop().unwrap();
        Ok(CLIOptions {
            input,
            output,
            check: reader.check,
            list: reader.list,
            silent: reader.silent,
            quiet: reader.quiet,
            encoding: reader.encoding,
            utf8: reader.utf8,
            yes: reader.yes,
            force: reader.force,
            in_place: reader.in_place,
        })
    }
}

} // verus!
