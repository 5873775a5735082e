//! Command-line parsing: one positional subcommand and an optional
//! `--diff` / `-d` flag naming the configuration file.
use vstd::prelude::*;
use vstd::string::*;

verus! {

/// What the command line asked for.
#[derive(Debug, Clone)]
pub struct Arguments {
    pub command: Option<String>,
    pub diff_file: Option<String>,
}

/// Why a command line was rejected.
#[derive(Debug, Clone, Copy, PartialEq, Eq, Structural)]
pub enum ArgumentErrorKind {
    /// A flag other than `--diff` / `-d`.
    UnknownFlag,
    /// More than one positional argument.
    ExtraPositional,
}

/// A rejected command line: the reason and the position of the offending
/// argument (the program name being position 0).
#[derive(Debug, Clone, Copy, PartialEq, Eq, Structural)]
pub struct ArgumentError {
    pub kind: ArgumentErrorKind,
    pub index: usize,
}

/// A value given to an argument.
#[derive(Debug, Clone)]
pub enum ArgumentInput {
    Text(String),
    Number(u32),
    Flag(bool),
}

impl From<String> for ArgumentInput {
    fn from(value: String) -> (r: Self)
        ensures
            r == ArgumentInput::Text(value),
    {
        ArgumentInput::Text(value)
    }
}

impl vstd::std_specs::convert::FromSpecImpl<String> for ArgumentInput {
    open spec fn obeys_from_spec() -> bool {
        true
    }

    open spec fn from_spec(v: String) -> Self {
        ArgumentInput::Text(v)
    }
}

impl From<u32> for ArgumentInput {
    fn from(value: u32) -> (r: Self)
        ensures
            r == ArgumentInput::Number(value),
    {
        ArgumentInput::Number(value)
    }
}

impl vstd::std_specs::convert::FromSpecImpl<u32> for ArgumentInput {
    open spec fn obeys_from_spec() -> bool {
        true
    }

    open spec fn from_spec(v: u32) -> Self {
        ArgumentInput::Number(v)
    }
}

impl From<bool> for ArgumentInput {
    fn from(value: bool) -> (r: Self)
        ensures
            r == ArgumentInput::Flag(value),
    {
        ArgumentInput::Flag(value)
    }
}

impl vstd::std_specs::convert::FromSpecImpl<bool> for ArgumentInput {
    open spec fn obeys_from_spec() -> bool {
        true
    }

    open spec fn from_spec(v: bool) -> Self {
        ArgumentInput::Flag(v)
    }
}

/// One argument while it is being parsed: its name, whether it still waits
/// for a value in the next word, and the value it got.
#[derive(Debug, Clone)]
pub struct Argument {
    pub name: String,
    pub needs_query: bool,
    pub value: Option<ArgumentInput>,
}

pub open spec fn diff_name() -> Seq<char> {
    "diff"@
}

pub open spec fn command_name() -> Seq<char> {
    "command"@
}

impl Arguments {
    pub fn new() -> (r: Self)
        ensures
            r.command is None,
            r.diff_file is None,
    {
        Arguments { command: None, diff_file: None }
    }
}

impl Argument {
    pub fn new() -> (r: Self)
        ensures
            r.name@ == Seq::<char>::empty(),
            !r.needs_query,
            r.value is None,
    {
        Argument { name: String::new(), needs_query: false, value: None }
    }

    /// Names the argument after `item_type` when it is `"diff"` (which then
    /// waits for a value) or `"command"`; any other word leaves it unchanged.
    pub fn set_argument_type(&mut self, item_type: &str)
        ensures
            item_type@ == diff_name() ==> final(self).name@ == diff_name()
                && final(self).needs_query && final(self).value == old(self).value,
            item_type@ == command_name() ==> final(self).name@ == command_name()
                && final(self).needs_query == old(self).needs_query && final(self).value
                == old(self).value,
            item_type@ != diff_name() && item_type@ != command_name() ==> *final(self) == *old(
                self,
            ),
    {
        proof {
            reveal_strlit("diff");
            reveal_strlit("command");
            assert(diff_name().len() != command_name().len());
        }
        let t = String::from_str(item_type);
        let d = String::from_str("diff");
        let c = String::from_str("command");
        if t == d {
            self.name = d;
            self.needs_query = true;
        } else if t == c {
            self.name = c;
        }
    }

    pub fn set_value(&mut self, value: ArgumentInput)
        ensures
            final(self).value == Some(value),
            final(self).name == old(self).name,
            final(self).needs_query == old(self).needs_query,
    {
        self.value = Some(value);
    }

    pub fn reset(&mut self)
        ensures
            final(self).name@ == Seq::<char>::empty(),
            !final(self).needs_query,
            final(self).value is None,
    {
        self.name = String::new();
        self.needs_query = false;
        self.value = None;
    }
}

/// Index of the first `c` in `s` at or after `from`, or `s.len()` if none.
pub open spec fn index_of(s: Seq<char>, c: char, from: int) -> int
    decreases s.len() - from,
{
    if from < 0 || from >= s.len() {
        s.len() as int
    } else if s[from] == c {
        from
    } else {
        index_of(s, c, from + 1)
    }
}

pub open spec fn is_flag(s: Seq<char>) -> bool {
    s.len() > 0 && s[0] == '-'
}

pub open spec fn is_diff_flag(s: Seq<char>) -> bool {
    s == "--diff"@ || s == "-d"@
}

/// The part of `name=value[=...]` before the first `=`.
pub open spec fn flag_name(s: Seq<char>) -> Seq<char> {
    s.subrange(0, index_of(s, '=', 0))
}

/// The part of `name=value[=...]` between the first and the second `=`.
pub open spec fn flag_value(s: Seq<char>) -> Seq<char> {
    let k = index_of(s, '=', 0);
    s.subrange(k + 1, index_of(s, '=', k + 1))
}

/// Parsed command and configuration path, or the error, for the words of
/// `args` from position `i` on, given the state reached before it.
pub open spec fn parse_from(
    args: Seq<Seq<char>>,
    i: int,
    pending: bool,
    positional: bool,
    command: Option<Seq<char>>,
    diff: Option<Seq<char>>,
) -> Result<(Option<Seq<char>>, Option<Seq<char>>), ArgumentError>
    decreases args.len() - i,
{
    if i < 0 || i >= args.len() {
        Ok((command, diff))
    } else {
        let a = args[i];
        if pending {
            parse_from(args, i + 1, false, positional, command, Some(a))
        } else if is_flag(a) {
            if index_of(a, '=', 0) == a.len() {
                if is_diff_flag(a) {
                    parse_from(args, i + 1, true, positional, command, diff)
                } else {
                    Err(ArgumentError { kind: ArgumentErrorKind::UnknownFlag, index: i as usize })
                }
            } else if is_diff_flag(flag_name(a)) {
                parse_from(args, i + 1, false, positional, command, Some(flag_value(a)))
            } else {
                Err(ArgumentError { kind: ArgumentErrorKind::UnknownFlag, index: i as usize })
            }
        } else if !positional {
            parse_from(args, i + 1, false, true, Some(a), diff)
        } else {
            Err(ArgumentError { kind: ArgumentErrorKind::ExtraPositional, index: i as usize })
        }
    }
}

/// The meaning of a whole command line, whose first word is the program name.
pub open spec fn parse_command_line(args: Seq<Seq<char>>) -> Result<
    (Option<Seq<char>>, Option<Seq<char>>),
    ArgumentError,
> {
    parse_from(args, 1, false, false, None, None)
}

pub open spec fn views(args: Seq<String>) -> Seq<Seq<char>> {
    args.map_values(|s: String| s@)
}

pub open spec fn opt_view(o: Option<String>) -> Option<Seq<char>> {
    match o {
        Some(s) => Some(s@),
        None => None,
    }
}

pub(crate) fn find_char(s: &str, len: usize, c: char, from: usize) -> (r: usize)
    requires
        len == s@.len(),
        from <= len,
    ensures
        r == index_of(s@, c, from as int),
        from <= r <= len,
{
    let mut i = from;
    while i < len && s.get_char(i) != c
        invariant
            from <= i <= len,
            len == s@.len(),
            index_of(s@, c, from as int) == index_of(s@, c, i as int),
        decreases len - i,
    {
        i = i + 1;
    }
    i
}

fn is_diff_flag_exec(s: &str) -> (r: bool)
    ensures
        r == is_diff_flag(s@),
{
    let t = String::from_str(s);
    t == String::from_str("--diff") || t == String::from_str("-d")
}

/// Parses the words of a command line, the program name first.
pub fn handle_args(args: &Vec<String>) -> (r: Result<Arguments, ArgumentError>)
    ensures
        match parse_command_line(views(args@)) {
            Ok((c, d)) => r matches Ok(a) && opt_view(a.command) == c && opt_view(a.diff_file)
                == d,
            Err(e) => r == Err::<Arguments, ArgumentError>(e),
        },
{
    let ghost all = views(args@);
    let mut active = Argument::new();
    let mut positional = false;
    let mut result = Arguments::new();
    let n = args.len();
    if n == 0 {
        return Ok(result);
    }
    let mut i: usize = 1;
    while i < n
        invariant
            1 <= i <= n,
            n == args@.len(),
            all == views(args@),
            parse_command_line(all) == parse_from(
                all,
                i as int,
                active.needs_query,
                positional,
                opt_view(result.command),
                opt_view(result.diff_file),
            ),
        decreases n - i,
    {
        let arg: &str = args[i].as_str();
        assert(arg@ == all[i as int]);
        let len = arg.unicode_len();
        if active.needs_query {
            result.diff_file = Some(String::from_str(arg));
            active.set_value(ArgumentInput::Text(String::from_str(arg)));
            active.reset();
        } else if len > 0 && arg.get_char(0) == '-' {
            let k = find_char(arg, len, '=', 0);
            if k == len {
                if is_diff_flag_exec(arg) {
                    active.set_argument_type("diff");
                } else {
                    return Err(ArgumentError { kind: ArgumentErrorKind::UnknownFlag, index: i });
                }
            } else {
                let name = arg.substring_char(0, k);
                if is_diff_flag_exec(name) {
                    let m = find_char(arg, len, '=', k + 1);
                    let value = arg.substring_char(k + 1, m);
                    result.diff_file = Some(String::from_str(value));
                } else {
                    return Err(ArgumentError { kind: ArgumentErrorKind::UnknownFlag, index: i });
                }
            }
        } else if !positional {
            result.command = Some(String::from_str(arg));
            positional = true;
        } else {
            return Err(ArgumentError { kind: ArgumentErrorKind::ExtraPositional, index: i });
        }
        i = i + 1;
    }
    Ok(result)
}

} // verus!
