use std::collections::HashSet;
use vstd::prelude::*;
use vstd::string::{StrSliceExecFns, StringExecFns};

use crate::display::Color;

verus! {

/// The settings of the emulator, as mathematical values.
#[verifier::ext_equal]
pub struct ConfigView {
    pub rom_path: Option<Seq<char>>,
    pub instructions_per_second: u32,
    pub pixel_size: u32,
    pub on_color: Color,
    pub off_color: Color,
    pub debug: bool,
    pub breakpoints: Set<u16>,
}

/// The settings of the emulator.
pub struct C8Config {
    /// The program to run.
    pub rom_path: Option<String>,
    pub instructions_per_second: u32,
    pub pixel_size: u32,
    pub on_color: Color,
    pub off_color: Color,
    pub debug: bool,
    /// Program-counter values at which to pause.
    pub breakpoints: HashSet<u16>,
}

impl View for C8Config {
    type V = ConfigView;

    open spec fn view(&self) -> ConfigView {
        ConfigView {
            rom_path: match self.rom_path {
                Some(p) => Some(p@),
                None => None,
            },
            instructions_per_second: self.instructions_per_second,
            pixel_size: self.pixel_size,
            on_color: self.on_color,
            off_color: self.off_color,
            debug: self.debug,
            breakpoints: self.breakpoints@,
        }
    }
}

/// The settings used where the command line says nothing else: 700
/// instructions per second, pixel size 10, white on black, no debug mode, no
/// program and no breakpoints.
pub open spec fn default_config() -> ConfigView {
    ConfigView {
        rom_path: None,
        instructions_per_second: 700,
        pixel_size: 10,
        on_color: Color { r: 255, g: 255, b: 255, a: 255 },
        off_color: Color { r: 0, g: 0, b: 0, a: 255 },
        debug: false,
        breakpoints: Set::empty(),
    }
}

impl Default for C8Config {
    fn default() -> (c: Self)
        ensures
            c@ == default_config(),
    {
        C8Config::new(700, 10, Color::white(), Color::black(), false)
    }
}

/// Whether a command-line argument is a flag: it starts with `-`.
pub open spec fn is_flag(s: Seq<char>) -> bool {
    s.len() > 0 && s[0] == '-'
}

/// The value of a string of decimal digits.
pub open spec fn digits_value(s: Seq<char>) -> int
    decreases s.len(),
{
    if s.len() == 0 {
        0
    } else {
        digits_value(s.drop_last()) * 10 + (s.last() as int - '0' as int)
    }
}

/// Whether every character is an ASCII decimal digit.
pub open spec fn all_digits(s: Seq<char>) -> bool {
    forall|i: int| 0 <= i < s.len() ==> '0' <= #[trigger] s[i] <= '9'
}

/// The digits of an unsigned number, after an optional `+` sign.
pub open spec fn unsigned_digits(s: Seq<char>) -> Seq<char> {
    if s.len() > 0 && s[0] == '+' {
        s.drop_first()
    } else {
        s
    }
}

/// What parsing `s` as an unsigned decimal integer no greater than `max`
/// gives: an optional `+` followed by at least one digit and nothing else.
pub open spec fn parse_unsigned(s: Seq<char>, max: int) -> Option<int> {
    let d = unsigned_digits(s);
    if d.len() > 0 && all_digits(d) && digits_value(d) <= max {
        Some(digits_value(d))
    } else {
        None
    }
}

/// Every digit string has a value of at least zero.
proof fn lemma_digits_value_nonneg(d: Seq<char>)
    requires
        all_digits(d),
    ensures
        digits_value(d) >= 0,
    decreases d.len(),
{
    if d.len() > 0 {
        assert(all_digits(d.drop_last())) by {
            assert forall|i: int| 0 <= i < d.drop_last().len() implies '0' <= #[trigger] d.drop_last()[i] <= '9' by {
                assert(d.drop_last()[i] == d[i]);
            }
        }
        lemma_digits_value_nonneg(d.drop_last());
        assert('0' <= d[d.len() - 1] <= '9');
    }
}

/// Appending digits to a digit string never lowers its value.
proof fn lemma_digits_value_grows(d: Seq<char>, k: int, n: int)
    requires
        0 <= k <= n <= d.len(),
        all_digits(d),
    ensures
        digits_value(d.subrange(0, k)) <= digits_value(d.subrange(0, n)),
    decreases n - k,
{
    if k < n {
        lemma_digits_value_grows(d, k, n - 1);
        assert(d.subrange(0, n).drop_last() =~= d.subrange(0, n - 1));
        assert(all_digits(d.subrange(0, n - 1))) by {
            assert forall|i: int| 0 <= i < n - 1 implies '0' <= #[trigger] d.subrange(0, n - 1)[i] <= '9' by {
                assert(d.subrange(0, n - 1)[i] == d[i]);
            }
        }
        lemma_digits_value_nonneg(d.subrange(0, n - 1));
        assert('0' <= d[n - 1] <= '9');
    }
}

/// Parses an unsigned decimal integer no greater than `max`: an optional `+`
/// followed by at least one ASCII digit and nothing else, as `str::parse` for
/// the unsigned integer types reads it.
fn parse_decimal(s: &str, max: u32) -> (r: Option<u32>)
    ensures
        r matches Some(v) ==> parse_unsigned(s@, max as int) == Some(v as int),
        r is None ==> parse_unsigned(s@, max as int) is None,
{
    let n = s.unicode_len();
    let start: usize = if n > 0 && s.get_char(0) == '+' {
        1
    } else {
        0
    };
    let ghost d = unsigned_digits(s@);
    assert(d =~= s@.subrange(start as int, n as int));
    if start >= n {
        return None;
    }
    let mut value: u32 = 0;
    let mut k: usize = start;
    while k < n
        invariant
            start <= k <= n,
            start < n,
            n == s@.len(),
            d == s@.subrange(start as int, n as int),
            d == unsigned_digits(s@),
            value == digits_value(d.subrange(0, k - start)),
            value <= max,
            all_digits(d.subrange(0, k - start)),
        decreases n - k,
    {
        let c = s.get_char(k);
        let ghost j = k - start;
        assert(d[j] == c);
        if c < '0' || c > '9' {
            proof {
                if all_digits(d) {
                    assert('0' <= d[j] <= '9');
                }
            }
            return None;
        }
        let digit = (c as u32) - ('0' as u32);
        assert(d.subrange(0, j + 1).drop_last() =~= d.subrange(0, j));
        assert(digits_value(d.subrange(0, j + 1)) == value * 10 + digit);
        let next: u64 = value as u64 * 10 + digit as u64;
        if next > max as u64 {
            proof {
                if all_digits(d) {
                    lemma_digits_value_grows(d, j + 1, d.len() as int);
                    assert(d.subrange(0, d.len() as int) =~= d);
                    assert(digits_value(d) > max);
                }
            }
            return None;
        }
        assert(all_digits(d.subrange(0, j + 1))) by {
            assert forall|i: int| 0 <= i < j + 1 implies '0' <= #[trigger] d.subrange(0, j + 1)[i] <= '9' by {
                if i < j {
                    assert(d.subrange(0, j + 1)[i] == d.subrange(0, j)[i]);
                }
            }
        }
        value = next as u32;
        k += 1;
    }
    assert(d.subrange(0, n - start) =~= d);
    Some(value)
}

/// What the `{:?}` format of a `str` writes: the string in double quotes,
/// with special characters escaped.
pub uninterp spec fn debug_str(s: Seq<char>) -> Seq<char>;

/// What the `{:?}` format of the path made from `s` writes: the path in
/// double quotes, with special characters escaped as `Path`'s `Debug` does.
pub uninterp spec fn debug_path(s: Seq<char>) -> Seq<char>;

/// `format!("{:?}", s)`: `str`'s `Debug`.
#[verifier::external_body]
fn str_debug(s: &str) -> (r: String)
    ensures
        r@ == debug_str(s@),
{
    format!("{:?}", s)
}

/// `format!("{:?}", Path::new(s))`: `Path`'s `Debug`.
#[verifier::external_body]
fn path_debug(s: &str) -> (r: String)
    ensures
        r@ == debug_path(s@),
{
    format!("{:?}", std::path::Path::new(s))
}

/// The error for a second program path on the command line: the first path
/// is shown as a path, the second as the argument it is.
pub open spec fn duplicate_rom_message(first: Seq<char>, second: Seq<char>) -> Seq<char> {
    "Duplicate ROM paths: `"@ + debug_path(first) + "` and `"@ + debug_str(second) + "`"@
}

/// The error for a second program path on the command line.
fn duplicate_rom_error(first: &str, second: &str) -> (e: String)
    ensures
        e@ == duplicate_rom_message(first@, second@),
{
    let mut e = String::from_str("Duplicate ROM paths: `");
    let p = path_debug(first);
    e.append(p.as_str());
    e.append("` and `");
    let a = str_debug(second);
    e.append(a.as_str());
    e.append("`");
    e
}

/// The error for an unknown flag.
pub open spec fn invalid_flag_message(flag: Seq<char>) -> Seq<char> {
    "Invalid flag: `"@ + flag + "`"@
}

/// The error for `--cycles` as the last argument.
pub open spec fn missing_cycles_message() -> Seq<char> {
    "Missing argument after `--cycles`"@
}

/// The breakpoint address that a `--break` argument stands for: the address
/// of the instruction with that number, counted from `0x200` in steps of two
/// bytes; `None` where it is not a number or the address passes `0xFFFF`.
pub open spec fn breakpoint_of(arg: Seq<char>) -> Option<u16> {
    match parse_unsigned(arg, u16::MAX as int) {
        Some(n) => if 0x200 + 2 * n <= 0xFFFF {
            Some((0x200 + 2 * n) as u16)
        } else {
            None
        },
        None => None,
    }
}

/// The index of the first flag at or after `j`, or the number of arguments.
pub open spec fn flag_run_end(args: Seq<Seq<char>>, j: int) -> int
    decreases args.len() - j,
{
    if j >= args.len() || is_flag(args[j]) {
        j
    } else {
        flag_run_end(args, j + 1)
    }
}

pub proof fn lemma_flag_run_end(args: Seq<Seq<char>>, j: int)
    ensures
        flag_run_end(args, j) >= j,
        j <= args.len() ==> flag_run_end(args, j) <= args.len(),
        forall|k: int| j <= k < flag_run_end(args, j) ==> !is_flag(#[trigger] args[k]),
        flag_run_end(args, j) < args.len() ==> is_flag(args[flag_run_end(args, j)]),
    decreases args.len() - j,
{
    if j < args.len() && !is_flag(args[j]) {
        lemma_flag_run_end(args, j + 1);
    }
}

/// Whether every argument from `j` up to `end` is a valid breakpoint.
pub open spec fn breakpoints_ok(args: Seq<Seq<char>>, j: int, end: int) -> bool {
    forall|k: int| j <= k < end ==> #[trigger] breakpoint_of(args[k]) is Some
}

/// The breakpoints that the arguments from `j` up to `end` stand for.
pub open spec fn breakpoint_set(args: Seq<Seq<char>>, j: int, end: int) -> Set<u16> {
    Set::new(|b: u16| exists|k: int| j <= k < end && #[trigger] breakpoint_of(args[k]) == Some(b))
}

/// Why parsing the command line gives up instead of returning an error.
#[derive(Debug, Clone, Copy, PartialEq, Eq, Structural)]
pub enum ArgAbort {
    /// Fewer than two arguments: no program was named.
    Usage,
    /// The argument after `--cycles` is not a `u32`.
    CyclesNotANumber,
    /// A `--break` argument is not a `u16`, or its address passes `0xFFFF`.
    InvalidBreakpoint,
    /// `--pixel-size`, `--on-color` and `--off-color` are not implemented.
    NotImplemented,
}

/// How parsing the command line ends.
pub enum ParseOutcome {
    /// The settings.
    Parsed(ConfigView),
    /// The error message.
    Failed(Seq<char>),
    /// Parsing gives up.
    Aborts(ArgAbort),
}

/// Parsing the arguments from `i` on, starting from the settings `cfg`.
/// `--debug` switches debug mode on, `--cycles N` sets the speed, `--break`
/// replaces the breakpoints by those of the arguments up to the next flag,
/// and an argument that is not a flag is the program's path, which may be
/// given once.
pub open spec fn parse_from(args: Seq<Seq<char>>, i: int, cfg: ConfigView) -> ParseOutcome
    decreases args.len() - i,
{
    if i < 0 || i >= args.len() {
        ParseOutcome::Parsed(cfg)
    } else {
        let a = args[i];
        if is_flag(a) {
            if a == "--debug"@ {
                parse_from(args, i + 1, ConfigView { debug: true, ..cfg })
            } else if a == "--cycles"@ {
                if i + 1 >= args.len() {
                    ParseOutcome::Failed(missing_cycles_message())
                } else {
                    match parse_unsigned(args[i + 1], u32::MAX as int) {
                        Some(v) => parse_from(
                            args,
                            i + 2,
                            ConfigView { instructions_per_second: v as u32, ..cfg },
                        ),
                        None => ParseOutcome::Aborts(ArgAbort::CyclesNotANumber),
                    }
                }
            } else if a == "--break"@ {
                let end = flag_run_end(args, i + 1);
                proof {
                    lemma_flag_run_end(args, i + 1);
                }
                if breakpoints_ok(args, i + 1, end) {
                    parse_from(
                        args,
                        end,
                        ConfigView { breakpoints: breakpoint_set(args, i + 1, end), ..cfg },
                    )
                } else {
                    ParseOutcome::Aborts(ArgAbort::InvalidBreakpoint)
                }
            } else if a == "--pixel-size"@ || a == "--on-color"@ || a == "--off-color"@ {
                ParseOutcome::Aborts(ArgAbort::NotImplemented)
            } else {
                ParseOutcome::Failed(invalid_flag_message(a))
            }
        } else {
            match cfg.rom_path {
                Some(p) => ParseOutcome::Failed(duplicate_rom_message(p, a)),
                None => parse_from(args, i + 1, ConfigView { rom_path: Some(a), ..cfg }),
            }
        }
    }
}

/// The arguments as character sequences.
pub open spec fn arg_views(args: Seq<String>) -> Seq<Seq<char>> {
    args.map_values(|s: String| s@)
}

/// What the command line `args` (program name first) gives.
pub open spec fn parse_command_line(args: Seq<String>) -> ParseOutcome {
    if args.len() < 2 {
        ParseOutcome::Aborts(ArgAbort::Usage)
    } else {
        parse_from(arg_views(args), 1, default_config())
    }
}

/// How parsing the command line ended.
pub enum ParseResult {
    Parsed(C8Config),
    Failed(String),
    Aborted(ArgAbort),
}

/// `res` is what the command line `args` gives.
pub open spec fn parse_result_matches(args: Seq<String>, res: ParseResult) -> bool {
    match parse_command_line(args) {
        ParseOutcome::Parsed(v) => res matches ParseResult::Parsed(c) && c@ == v,
        ParseOutcome::Failed(m) => res matches ParseResult::Failed(e) && e@ == m,
        ParseOutcome::Aborts(a) => res == ParseResult::Aborted(a),
    }
}

/// Whether a string starts with `-`.
fn starts_with_dash(s: &str) -> (b: bool)
    ensures
        b == is_flag(s@),
{
    s.unicode_len() > 0 && s.get_char(0) == '-'
}

/// Whether a string is the literal `lit`.
fn str_equals(s: &str, lit: &str) -> (b: bool)
    ensures
        b == (s@ == lit@),
{
    let n = s.unicode_len();
    if n != lit.unicode_len() {
        return false;
    }
    let mut k: usize = 0;
    while k < n
        invariant
            k <= n,
            n == s@.len(),
            n == lit@.len(),
            forall|j: int| 0 <= j < k ==> s@[j] == lit@[j],
        decreases n - k,
    {
        if s.get_char(k) != lit.get_char(k) {
            return false;
        }
        k += 1;
    }
    assert(s@ =~= lit@);
    true
}

/// The breakpoint address of a `--break` argument.
fn breakpoint_from_arg(arg: &str) -> (b: Option<u16>)
    ensures
        b == breakpoint_of(arg@),
{
    match parse_decimal(arg, 0xFFFF) {
        Some(n) => if n <= 32511 {
            Some(0x200 + 2 * (n as u16))
        } else {
            None
        },
        None => None,
    }
}

impl C8Config {
    /// Settings with the given values, no program and no breakpoints.
    pub fn new(
        instructions_per_second: u32,
        pixel_size: u32,
        on_color: Color,
        off_color: Color,
        debug: bool,
    ) -> (c: Self)
        ensures
            c@ == (ConfigView {
                rom_path: None,
                instructions_per_second,
                pixel_size,
                on_color,
                off_color,
                debug,
                breakpoints: Set::empty(),
            }),
    {
        C8Config {
            rom_path: None,
            instructions_per_second,
            pixel_size,
            on_color,
            off_color,
            debug,
            breakpoints: HashSet::new(),
        }
    }

    /// Parses the command line (program name first): `yac8-emu
    /// path/to/rom [--debug] [--cycles N] [--break N...]`. Where the command
    /// line cannot be used at all, says why.
    pub fn parse_command(args: &Vec<String>) -> (res: ParseResult)
        ensures
            parse_result_matches(args@, res),
    {
        if args.len() < 2 {
            return ParseResult::Aborted(ArgAbort::Usage);
        }
        let ghost av = arg_views(args@);
        let mut cfg = C8Config::default();
        let mut i: usize = 1;
        while i < args.len()
            invariant
                1 <= i <= args@.len(),
                av == arg_views(args@),
                av.len() == args@.len(),
                forall|k: int| 0 <= k < args@.len() ==> #[trigger] av[k] == args@[k]@,
                parse_command_line(args@) == parse_from(av, i as int, cfg@),
            decreases args@.len() - i,
        {
            let arg = &args[i];
            if starts_with_dash(arg.as_str()) {
                if str_equals(arg.as_str(), "--debug") {
                    cfg.debug = true;
                    i += 1;
                } else if str_equals(arg.as_str(), "--cycles") {
                    if i + 1 >= args.len() {
                        proof {
                            reveal_strlit("Missing argument after `--cycles`");
                        }
                        return ParseResult::Failed(
                            String::from_str("Missing argument after `--cycles`"),
                        );
                    }
                    match parse_decimal(args[i + 1].as_str(), u32::MAX) {
                        Some(v) => {
                            cfg.instructions_per_second = v;
                            i += 2;
                        },
                        None => {
                            return ParseResult::Aborted(ArgAbort::CyclesNotANumber);
                        },
                    }
                } else if str_equals(arg.as_str(), "--break") {
                    let ghost start = i + 1;
                    proof {
                        lemma_flag_run_end(av, start as int);
                        assert(av[i as int] == args@[i as int]@);
                    }
                    let ghost end = flag_run_end(av, start as int);
                    let mut set: HashSet<u16> = HashSet::new();
                    let mut j: usize = i + 1;
                    while j < args.len() && !starts_with_dash(args[j].as_str())
                        invariant
                            start <= j <= args@.len(),
                            av == arg_views(args@),
                            av.len() == args@.len(),
                            forall|k: int| 0 <= k < args@.len() ==> #[trigger] av[k] == args@[k]@,
                            end == flag_run_end(av, start as int),
                            start <= end <= args@.len(),
                            end <= av.len(),
                            j <= end,
                            forall|k: int| start <= k < end ==> !is_flag(#[trigger] av[k]),
                            end < args@.len() ==> is_flag(av[end]),
                            breakpoints_ok(av, start as int, j as int),
                            set@ == breakpoint_set(av, start as int, j as int),
                            start == i + 1,
                            i < args@.len(),
                            is_flag(av[i as int]),
                            av[i as int] != "--debug"@,
                            av[i as int] != "--cycles"@,
                            av[i as int] == "--break"@,
                            parse_command_line(args@) == parse_from(av, i as int, cfg@),
                        decreases args@.len() - j,
                    {
                        let ghost prev = set@;
                        let bp = breakpoint_from_arg(args[j].as_str());
                        proof {
                            assert(av[j as int] == args@[j as int]@);
                        }
                        match bp {
                            Some(b) => {
                                set.insert(b);
                            },
                            None => {
                                proof {
                                    assert(breakpoint_of(av[j as int]) is None);
                                    assert(!breakpoints_ok(av, start as int, end));
                                }
                                return ParseResult::Aborted(ArgAbort::InvalidBreakpoint);
                            },
                        }
                        proof {
                            assert forall|b: u16| set@.contains(b) == breakpoint_set(
                                av,
                                start as int,
                                j + 1,
                            ).contains(b) by {
                                if set@.contains(b) && !prev.contains(b) {
                                    assert(breakpoint_of(av[j as int]) == Some(b));
                                }
                                if breakpoint_set(av, start as int, j + 1).contains(b) {
                                    let k = choose|k: int|
                                        start <= k < j + 1 && #[trigger] breakpoint_of(av[k])
                                            == Some(b);
                                    if k < j {
                                        assert(prev.contains(b));
                                    }
                                }
                            }
                            assert(set@ =~= breakpoint_set(av, start as int, j + 1));
                        }
                        j += 1;
                    }
                    cfg.breakpoints = set;
                    i = j;
                } else if str_equals(arg.as_str(), "--pixel-size") || str_equals(
                    arg.as_str(),
                    "--on-color",
                ) || str_equals(arg.as_str(), "--off-color") {
                    return ParseResult::Aborted(ArgAbort::NotImplemented);
                } else {
                    let mut msg = String::from_str("Invalid flag: `");
                    msg.append(arg.as_str());
                    msg.append("`");
                    return ParseResult::Failed(msg);
                }
            } else {
                match &cfg.rom_path {
                    Some(p) => {
                        return ParseResult::Failed(duplicate_rom_error(p.as_str(), arg.as_str()));
                    },
                    None => {
                        cfg.rom_path = Some(arg.clone());
                        i += 1;
                    },
                }
            }
        }
        ParseResult::Parsed(cfg)
    }

    /// Parses the command line (program name first), on a command line that
    /// `parse_command` does not give up on.
    pub fn parse_args(args: &Vec<String>) -> (res: Result<Self, String>)
        requires
            !(parse_command_line(args@) is Aborts),
        ensures
            parse_command_line(args@) matches ParseOutcome::Parsed(v) ==> (res matches Ok(c)
                && c@ == v),
            parse_command_line(args@) matches ParseOutcome::Failed(m) ==> (res matches Err(e)
                && e@ == m),
    {
        match C8Config::parse_command(args) {
            ParseResult::Parsed(c) => Ok(c),
            ParseResult::Failed(e) => Err(e),
            ParseResult::Aborted(_) => Err(String::new()),
        }
    }
}
} // verus!
