//! The command line: options, durations and where credentials are looked for.
use vstd::prelude::*;
use vstd::string::*;
use vstd::utf8::*;

use crate::number::{
    decimal_digit, digits_value, is_digit, is_digits, lemma_digits_value_grows, parse_i64,
    parse_u64, read_i64, read_u64,
};
use crate::text::{
    after, before, chars_of, find_from, is_blank, is_space, law_first_division, law_starting_with,
    law_trimming, same_text, stands_at, starts_with, text_of, text_opt, texts, trim, trim_end,
    trim_start, trimmed,
};

verus! {

/// What `--help` prints.
pub const USAGE: &'static str = "usage: myslackcli [options]

  -t, --time <duration>   load history this far back first (e.g. 45s, 30m, 2h, 3d)
      --sql <file>        record every message in an sqlite file (also --sql=<file>)
      --local-no-sync     render the --sql file and exit: no Slack calls, no live stream
      --to-app-url=<id>   print the slack:// deep link for a message id and exit
      --to-web-url=<id>   print the https:// permalink for a message id and exit
      --env <file>        read SLACK_TOKEN/SLACK_COOKIE from this file
                          (default: ~/.config/myslackcli/.env)
      --no-color          plain output without ANSI colours
  -v, --verbose           report progress while running
  -h, --help              show this message
";

// ---------------------------------------------------------------------------
// Options.
// ---------------------------------------------------------------------------

/// What the command line asks for.
pub struct Options {
    pub verbose: bool,
    pub no_color: bool,
    pub local_no_sync: bool,
    pub backfill: Option<String>,
    pub sql_path: Option<String>,
    pub env_path: Option<String>,
    /// The message id to link to, and whether as a permalink.
    pub link_for: Option<(String, bool)>,
}

/// What the command line asks for.
pub struct OptionsView {
    pub verbose: bool,
    pub no_color: bool,
    pub local_no_sync: bool,
    pub backfill: Option<Seq<char>>,
    pub sql_path: Option<Seq<char>>,
    pub env_path: Option<Seq<char>>,
    pub link_for: Option<(Seq<char>, bool)>,
}

impl View for Options {
    type V = OptionsView;

    open spec fn view(&self) -> OptionsView {
        OptionsView {
            verbose: self.verbose,
            no_color: self.no_color,
            local_no_sync: self.local_no_sync,
            backfill: text_opt(self.backfill),
            sql_path: text_opt(self.sql_path),
            env_path: text_opt(self.env_path),
            link_for: match self.link_for {
                Some((id, web)) => Some((id@, web)),
                None => None,
            },
        }
    }
}

/// What becomes of a command line.
pub enum Parsed {
    /// The program runs with these options.
    Run(Options),
    /// The usage is printed.
    Help,
    /// There is no such argument.
    Unknown(String),
    /// An argument lacks its value; this says which.
    Missing(String),
}

/// What becomes of a command line.
pub enum ParsedView {
    Run(OptionsView),
    Help,
    Unknown(Seq<char>),
    Missing(Seq<char>),
}

impl View for Parsed {
    type V = ParsedView;

    open spec fn view(&self) -> ParsedView {
        match self {
            Parsed::Run(o) => ParsedView::Run(o@),
            Parsed::Help => ParsedView::Help,
            Parsed::Unknown(a) => ParsedView::Unknown(a@),
            Parsed::Missing(why) => ParsedView::Missing(why@),
        }
    }
}

/// The options without any argument.
pub open spec fn no_options() -> OptionsView {
    OptionsView {
        verbose: false,
        no_color: false,
        local_no_sync: false,
        backfill: None,
        sql_path: None,
        env_path: None,
        link_for: None,
    }
}

/// What becomes of the arguments `args` behind those that gave `o`. Later arguments win
/// over earlier ones; the first one that is unknown, lacks its value or asks for help
/// ends the matter.
pub open spec fn parsed(args: Seq<Seq<char>>, o: OptionsView) -> ParsedView
    decreases args.len(),
{
    if args.len() == 0 {
        ParsedView::Run(o)
    } else {
        let a = args[0];
        let rest = args.drop_first();
        if a == "-v"@ || a == "--verbose"@ {
            parsed(rest, OptionsView { verbose: true, ..o })
        } else if a == "--no-color"@ {
            parsed(rest, OptionsView { no_color: true, ..o })
        } else if a == "--local-no-sync"@ {
            parsed(rest, OptionsView { local_no_sync: true, ..o })
        } else if a == "-h"@ || a == "--help"@ {
            ParsedView::Help
        } else if a == "-t"@ || a == "--time"@ {
            if rest.len() == 0 {
                ParsedView::Missing("missing value for -t (e.g. -t 1h)"@)
            } else {
                parsed(rest.drop_first(), OptionsView { backfill: Some(rest[0]), ..o })
            }
        } else if a == "--sql"@ {
            if rest.len() == 0 {
                ParsedView::Missing("missing value for --sql (e.g. --sql=slack.db)"@)
            } else {
                parsed(rest.drop_first(), OptionsView { sql_path: Some(rest[0]), ..o })
            }
        } else if a == "--env"@ {
            if rest.len() == 0 {
                ParsedView::Missing("missing value for --env (e.g. --env=/path/.env)"@)
            } else {
                parsed(rest.drop_first(), OptionsView { env_path: Some(rest[0]), ..o })
            }
        } else if a == "--to-app-url"@ || a == "--to-web-url"@ {
            if rest.len() == 0 {
                ParsedView::Missing("missing message id for "@ + a)
            } else {
                parsed(
                    rest.drop_first(),
                    OptionsView { link_for: Some((rest[0], a == "--to-web-url"@)), ..o },
                )
            }
        } else if starts_with(a, "--sql="@) {
            parsed(rest, OptionsView { sql_path: Some(a.skip("--sql="@.len() as int)), ..o })
        } else if starts_with(a, "--env="@) {
            parsed(rest, OptionsView { env_path: Some(a.skip("--env="@.len() as int)), ..o })
        } else if starts_with(a, "--to-app-url="@) || starts_with(a, "--to-web-url="@) {
            parsed(
                rest,
                OptionsView {
                    link_for: Some((after(a, '='), before(a, '=') == "--to-web-url"@)),
                    ..o
                },
            )
        } else {
            ParsedView::Unknown(a)
        }
    }
}

/// The value of `--flag=value`, where `arg` begins with `flag_eq`.
fn inline_value(arg: &str, flag_eq: &str) -> (r: Option<String>)
    ensures
        text_opt(r) == (if starts_with(arg@, flag_eq@) {
            Some(arg@.skip(flag_eq@.len() as int))
        } else {
            None
        }),
{
    let chars: Vec<char> = chars_of(arg);
    let flag: Vec<char> = chars_of(flag_eq);
    assert(chars@.skip(0) =~= chars@);
    if !stands_at(&chars, 0, &flag) {
        return None;
    }
    let value: String = text_of(&chars, flag.len(), chars.len());
    assert(value@ =~= chars@.skip(flag@.len() as int));
    Some(value)
}

/// The id and the form that `--to-app-url=id` or `--to-web-url=id` ask for.
fn inline_link(arg: &str) -> (r: Option<(String, bool)>)
    ensures
        (match r {
            Some((id, web)) => Some((id@, web)),
            None => None,
        }) == (if starts_with(arg@, "--to-app-url="@) || starts_with(arg@, "--to-web-url="@) {
            Some((after(arg@, '='), before(arg@, '=') == "--to-web-url"@))
        } else {
            None
        }),
{
    let chars: Vec<char> = chars_of(arg);
    let app: Vec<char> = chars_of("--to-app-url=");
    let web: Vec<char> = chars_of("--to-web-url=");
    assert(chars@.skip(0) =~= chars@);
    if !stands_at(&chars, 0, &app) && !stands_at(&chars, 0, &web) {
        return None;
    }
    let eq: usize = find_from(&chars, 0, '=');
    let flag: String = text_of(&chars, 0, eq);
    assert(flag@ =~= before(arg@, '='));
    let id: String = if eq < chars.len() {
        text_of(&chars, eq + 1, chars.len())
    } else {
        String::new()
    };
    assert(id@ =~= after(arg@, '='));
    Some((id, same_text(flag.as_str(), "--to-web-url")))
}

/// Reads the command line, without the program's name.
pub fn parse_args(args: &Vec<String>) -> (r: Parsed)
    ensures
        r@ == parsed(texts(args@), no_options()),
{
    let ghost all = texts(args@);
    let mut o: Options = Options {
        verbose: false,
        no_color: false,
        local_no_sync: false,
        backfill: None,
        sql_path: None,
        env_path: None,
        link_for: None,
    };
    let mut i: usize = 0;
    assert(all.skip(0) =~= all);
    assert(o@ == no_options());
    while i < args.len()
        invariant
            i <= args@.len(),
            all == texts(args@),
            parsed(all.skip(i as int), o@) == parsed(all, no_options()),
        decreases args@.len() - i,
    {
        let a: &str = args[i].as_str();
        let ghost left = all.skip(i as int);
        assert(left[0] == a@);
        assert(left.drop_first() =~= all.skip(i + 1));
        let last: bool = i + 1 == args.len();
        if !last {
            assert(left.drop_first()[0] == args@[i + 1]@);
            assert(left.drop_first().drop_first() =~= all.skip(i + 2));
        }
        if same_text(a, "-v") || same_text(a, "--verbose") {
            o.verbose = true;
        } else if same_text(a, "--no-color") {
            o.no_color = true;
        } else if same_text(a, "--local-no-sync") {
            o.local_no_sync = true;
        } else if same_text(a, "-h") || same_text(a, "--help") {
            return Parsed::Help;
        } else if same_text(a, "-t") || same_text(a, "--time") {
            if last {
                return Parsed::Missing("missing value for -t (e.g. -t 1h)".to_owned());
            }
            i += 1;
            o.backfill = Some(args[i].clone());
        } else if same_text(a, "--sql") {
            if last {
                return Parsed::Missing("missing value for --sql (e.g. --sql=slack.db)".to_owned());
            }
            i += 1;
            o.sql_path = Some(args[i].clone());
        } else if same_text(a, "--env") {
            if last {
                return Parsed::Missing(
                    "missing value for --env (e.g. --env=/path/.env)".to_owned(),
                );
            }
            i += 1;
            o.env_path = Some(args[i].clone());
        } else if same_text(a, "--to-app-url") || same_text(a, "--to-web-url") {
            if last {
                let mut why: String = "missing message id for ".to_owned();
                why.append(a);
                return Parsed::Missing(why);
            }
            let web: bool = same_text(a, "--to-web-url");
            i += 1;
            o.link_for = Some((args[i].clone(), web));
        } else if let Some(path) = inline_value(a, "--sql=") {
            o.sql_path = Some(path);
        } else if let Some(path) = inline_value(a, "--env=") {
            o.env_path = Some(path);
        } else if let Some(link) = inline_link(a) {
            o.link_for = Some(link);
        } else {
            return Parsed::Unknown(a.to_owned());
        }
        i += 1;
    }
    assert(all.skip(i as int) =~= Seq::empty());
    Parsed::Run(o)
}

// ---------------------------------------------------------------------------
// Mode.
// ---------------------------------------------------------------------------

/// What the program does.
pub enum Mode {
    /// Prints the link to a message of the database at `path`.
    Link { path: String, id: i64, web: bool },
    /// Shows what the database at `path` holds.
    Replay { path: String },
    /// Streams messages.
    Stream,
}

/// What the program does.
pub enum ModeView {
    Link { path: Seq<char>, id: i64, web: bool },
    Replay { path: Seq<char> },
    Stream,
}

impl View for Mode {
    type V = ModeView;

    open spec fn view(&self) -> ModeView {
        match self {
            Mode::Link { path, id, web } => ModeView::Link { path: path@, id: *id, web: *web },
            Mode::Replay { path } => ModeView::Replay { path: path@ },
            Mode::Stream => ModeView::Stream,
        }
    }
}

/// What `{:?}` writes for a text.
pub uninterp spec fn debug_form(text: Seq<char>) -> Seq<char>;

/// Calls `<str as std::fmt::Debug>::fmt` through `format`. Claims that what it writes
/// depends on the characters of the text alone.
#[verifier::external_body]
fn quoted(text: &str) -> (r: String)
    ensures
        r@ == debug_form(text@),
{
    format!("{:?}", text)
}

/// The complaint about a message id that is no number, as it is quoted.
pub open spec fn bad_id(quoted: Seq<char>) -> Seq<char> {
    "message id must be a number, got "@ + quoted
}

/// What is said of a message id that is no number, as it is quoted.
pub fn id_complaint(quoted: &str) -> (r: String)
    ensures
        r@ == bad_id(quoted@),
{
    let mut why: String = "message id must be a number, got ".to_owned();
    why.append(quoted);
    why
}

/// The complaint about a duration, as it is quoted.
pub open spec fn bad_duration(quoted: Seq<char>) -> Seq<char> {
    "invalid -t value: "@ + quoted + " (try e.g. 1h, 30m, 2d)"@
}

/// What is said of a duration that cannot be read, as it is quoted.
pub fn duration_complaint(quoted: &str) -> (r: String)
    ensures
        r@ == bad_duration(quoted@),
{
    let mut why: String = "invalid -t value: ".to_owned();
    why.append(quoted);
    why.append(" (try e.g. 1h, 30m, 2d)");
    why
}

/// What the options make the program do, or why it cannot. Links and replays only read
/// the database, so they come first, and need one.
pub open spec fn mode_of(o: OptionsView) -> Result<ModeView, Seq<char>> {
    match o.link_for {
        Some((id, web)) => match o.sql_path {
            None => Err(
                "--to-app-url/--to-web-url look the message up in the database, so they need --sql=<file>"@,
            ),
            Some(path) => match read_i64(id) {
                Some(id) => Ok(ModeView::Link { path, id, web }),
                None => Err(bad_id(debug_form(id))),
            },
        },
        None => if o.local_no_sync {
            match o.sql_path {
                None => Err("--local-no-sync reads from the database, so it needs --sql=<file>"@),
                Some(path) => Ok(ModeView::Replay { path }),
            }
        } else {
            Ok(ModeView::Stream)
        },
    }
}

/// What the options make the program do.
pub fn choose_mode(o: &Options) -> (r: Result<Mode, String>)
    ensures
        mode_of(o@) == (match r {
            Ok(mode) => Ok::<ModeView, Seq<char>>(mode@),
            Err(why) => Err(why@),
        }),
{
    if let Some((id, web)) = &o.link_for {
        return match &o.sql_path {
            None => Err(
                "--to-app-url/--to-web-url look the message up in the database, so they need --sql=<file>".to_owned(),
            ),
            Some(path) => match parse_i64(id.as_str()) {
                Some(n) => Ok(Mode::Link { path: path.clone(), id: n, web: *web }),
                None => {
                    let shown: String = quoted(id.as_str());
                    Err(id_complaint(shown.as_str()))
                },
            },
        };
    }
    if o.local_no_sync {
        return match &o.sql_path {
            None => Err(
                "--local-no-sync reads from the database, so it needs --sql=<file>".to_owned(),
            ),
            Some(path) => Ok(Mode::Replay { path: path.clone() }),
        };
    }
    Ok(Mode::Stream)
}

// ---------------------------------------------------------------------------
// Durations.
// ---------------------------------------------------------------------------

/// How many seconds a unit has.
pub open spec fn unit_secs(unit: char) -> Option<int> {
    if unit == 's' {
        Some(1)
    } else if unit == 'm' {
        Some(60)
    } else if unit == 'h' {
        Some(3600)
    } else if unit == 'd' {
        Some(86400)
    } else {
        None
    }
}

/// The seconds that a text such as `1h`, `30m`, `2d` or `45s` writes, white space around
/// it aside; a number without a unit counts seconds.
pub open spec fn duration_secs(text: Seq<char>) -> Option<u64> {
    let s = trim(text);
    if s.len() == 0 {
        None
    } else {
        let bare = is_digit(s.last());
        let number = if bare {
            s
        } else {
            s.drop_last()
        };
        let unit = if bare {
            's'
        } else {
            s.last()
        };
        match (read_u64(number), unit_secs(unit)) {
            (Some(n), Some(secs)) => if n * secs <= u64::MAX {
                Some((n * secs) as u64)
            } else {
                None
            },
            _ => None,
        }
    }
}

/// Reads a duration, in seconds.
pub fn parse_duration(text: &str) -> (r: Option<u64>)
    ensures
        r == duration_secs(text@),
{
    let s: Vec<char> = trimmed(text);
    if s.len() == 0 {
        return None;
    }
    let last: char = s[s.len() - 1];
    let bare: bool = decimal_digit(last);
    let end: usize = if bare {
        s.len()
    } else {
        s.len() - 1
    };
    let number: String = text_of(&s, 0, end);
    assert(number@ =~= if bare {
        s@
    } else {
        s@.drop_last()
    });
    let secs: u64 = if bare || last == 's' {
        1
    } else if last == 'm' {
        60
    } else if last == 'h' {
        3600
    } else if last == 'd' {
        86400
    } else {
        return None;
    };
    match parse_u64(number.as_str()) {
        Some(n) => n.checked_mul(secs),
        None => None,
    }
}

/// How far back history is to be loaded, in seconds, or the complaint about it.
pub fn backfill_window(text: &str) -> (r: Result<u64, String>)
    ensures
        match duration_secs(text@) {
            Some(secs) => r == Ok::<u64, String>(secs),
            None => r matches Err(why) && why@ == bad_duration(debug_form(text@)),
        },
{
    match parse_duration(text) {
        Some(secs) => Ok(secs),
        None => {
            let shown: String = quoted(text);
            Err(duration_complaint(shown.as_str()))
        },
    }
}

// ---------------------------------------------------------------------------
// Credentials.
// ---------------------------------------------------------------------------

/// The path `name` in the directory `dir`.
pub open spec fn path_in(dir: Seq<u8>, name: Seq<char>) -> Seq<u8> {
    if dir.len() > 0 && dir.last() != 0x2f {
        dir.push(0x2f) + encode_utf8(name)
    } else {
        dir + encode_utf8(name)
    }
}

/// The file that credentials are read from by default: in the configuration directory
/// where one is set, otherwise in `.config` of the home directory.
pub open spec fn env_file(config_home: Option<Seq<u8>>, home: Option<Seq<u8>>) -> Option<Seq<u8>> {
    let base = if config_home is Some && config_home->0.len() > 0 {
        config_home
    } else {
        match home {
            Some(dir) => Some(path_in(dir, ".config"@)),
            None => None,
        }
    };
    match base {
        Some(dir) => Some(path_in(path_in(dir, "myslackcli"@), ".env"@)),
        None => None,
    }
}

/// Goes on from the directory `dir` to `name`.
fn descend(dir: &mut Vec<u8>, name: &str)
    ensures
        final(dir)@ == path_in(old(dir)@, name@),
{
    if dir.len() > 0 && dir[dir.len() - 1] != 0x2f {
        dir.push(0x2f);
    }
    let bytes: &[u8] = name.as_bytes();
    let ghost start = dir@;
    let mut i: usize = 0;
    assert(start + bytes@.take(0) =~= start);
    while i < bytes.len()
        invariant
            i <= bytes@.len(),
            dir@ == start + bytes@.take(i as int),
        decreases bytes@.len() - i,
    {
        dir.push(bytes[i]);
        assert(start + bytes@.take(i + 1) =~= (start + bytes@.take(i as int)).push(
            bytes@[i as int],
        ));
        i += 1;
    }
    assert(bytes@.take(i as int) =~= bytes@);
}

/// The optional bytes.
pub open spec fn bytes_opt(o: Option<Vec<u8>>) -> Option<Seq<u8>> {
    match o {
        Some(b) => Some(b@),
        None => None,
    }
}

/// The file that credentials are read from by default, `$XDG_CONFIG_HOME` and `$HOME`
/// being the arguments where they are set.
pub fn default_env_path(config_home: Option<Vec<u8>>, home: Option<Vec<u8>>) -> (r: Option<Vec<u8>>)
    ensures
        bytes_opt(r) == env_file(bytes_opt(config_home), bytes_opt(home)),
{
    let mut path: Vec<u8> = match config_home {
        Some(dir) if dir.len() > 0 => dir,
        _ => match home {
            Some(dir) => {
                let mut dir: Vec<u8> = dir;
                descend(&mut dir, ".config");
                dir
            },
            None => {
                return None;
            },
        },
    };
    descend(&mut path, "myslackcli");
    descend(&mut path, ".env");
    Some(path)
}

// ---------------------------------------------------------------------------
// Laws.
// ---------------------------------------------------------------------------

proof fn lemma_digits_are_not_trimmed(s: Seq<char>)
    requires
        s.len() > 0,
        !is_space(s[0]),
        !is_space(s.last()),
    ensures
        trim(s) == s,
{
}

/// A run of digits counts seconds, with `s` behind it or without a unit; `m`, `h` and `d`
/// count minutes, hours and days. A duration that does not fit 64 bits is refused.
pub proof fn law_units_count_seconds(digits: Seq<char>, unit: char)
    requires
        is_digits(digits),
        unit_secs(unit) is Some,
    ensures
        duration_secs(digits) == duration_secs(digits.push('s')),
        digits_value(digits) <= u64::MAX && digits_value(digits) * unit_secs(unit)->0 <= u64::MAX
            ==> duration_secs(digits.push(unit)) == Some(
            (digits_value(digits) * unit_secs(unit)->0) as u64,
        ),
        digits_value(digits) > u64::MAX || digits_value(digits) * unit_secs(unit)->0 > u64::MAX
            ==> duration_secs(digits.push(unit)) is None,
{
    assert(is_digit(digits[0]));
    assert(is_digit(digits[digits.len() - 1]));
    lemma_digits_value_grows(digits, 0);
    assert(!is_digit(unit));
    lemma_digits_are_not_trimmed(digits);
    lemma_digits_are_not_trimmed(digits.push('s'));
    lemma_digits_are_not_trimmed(digits.push(unit));
    assert(digits.push('s').drop_last() =~= digits);
    assert(digits.push(unit).drop_last() =~= digits);
}

/// No option is set unless it is asked for.
pub proof fn law_nothing_is_asked_for(o: OptionsView)
    ensures
        parsed(Seq::empty(), o) == ParsedView::Run(o),
        !no_options().verbose && !no_options().no_color && !no_options().local_no_sync,
        no_options().backfill is None && no_options().sql_path is None,
        no_options().env_path is None && no_options().link_for is None,
{
}

proof fn lemma_options_differ()
    ensures
        "-v"@ != "--verbose"@ && "-v"@ != "--no-color"@ && "-v"@ != "--local-no-sync"@
            && "-v"@ != "-h"@ && "-v"@ != "--help"@ && "-v"@ != "-t"@ && "-v"@ != "--time"@
            && "-v"@ != "--sql"@ && "-v"@ != "--env"@ && "-v"@ != "--to-app-url"@
            && "-v"@ != "--to-web-url"@,
        "--verbose"@ != "--no-color"@ && "--verbose"@ != "--local-no-sync"@
            && "--verbose"@ != "-h"@ && "--verbose"@ != "--help"@ && "--verbose"@ != "-t"@
            && "--verbose"@ != "--time"@ && "--verbose"@ != "--sql"@ && "--verbose"@ != "--env"@
            && "--verbose"@ != "--to-app-url"@ && "--verbose"@ != "--to-web-url"@,
        "--no-color"@ != "--local-no-sync"@ && "--no-color"@ != "-h"@
            && "--no-color"@ != "--help"@ && "--no-color"@ != "-t"@ && "--no-color"@ != "--time"@
            && "--no-color"@ != "--sql"@ && "--no-color"@ != "--env"@
            && "--no-color"@ != "--to-app-url"@ && "--no-color"@ != "--to-web-url"@,
        "--local-no-sync"@ != "-h"@ && "--local-no-sync"@ != "--help"@
            && "--local-no-sync"@ != "-t"@ && "--local-no-sync"@ != "--time"@
            && "--local-no-sync"@ != "--sql"@ && "--local-no-sync"@ != "--env"@
            && "--local-no-sync"@ != "--to-app-url"@ && "--local-no-sync"@ != "--to-web-url"@,
        "-h"@ != "--help"@ && "-h"@ != "-t"@ && "-h"@ != "--time"@ && "-h"@ != "--sql"@
            && "-h"@ != "--env"@ && "-h"@ != "--to-app-url"@ && "-h"@ != "--to-web-url"@,
        "--help"@ != "-t"@ && "--help"@ != "--time"@ && "--help"@ != "--sql"@
            && "--help"@ != "--env"@ && "--help"@ != "--to-app-url"@
            && "--help"@ != "--to-web-url"@,
        "-t"@ != "--time"@ && "-t"@ != "--sql"@ && "-t"@ != "--env"@ && "-t"@ != "--to-app-url"@
            && "-t"@ != "--to-web-url"@,
        "--time"@ != "--sql"@ && "--time"@ != "--env"@ && "--time"@ != "--to-app-url"@
            && "--time"@ != "--to-web-url"@,
        "--sql"@ != "--env"@ && "--sql"@ != "--to-app-url"@ && "--sql"@ != "--to-web-url"@,
        "--env"@ != "--to-app-url"@ && "--env"@ != "--to-web-url"@,
        "--to-app-url"@ != "--to-web-url"@,
{
    reveal_strlit("-v");
    reveal_strlit("--verbose");
    reveal_strlit("--no-color");
    reveal_strlit("--local-no-sync");
    reveal_strlit("-h");
    reveal_strlit("--help");
    reveal_strlit("-t");
    reveal_strlit("--time");
    reveal_strlit("--sql");
    reveal_strlit("--env");
    reveal_strlit("--to-app-url");
    reveal_strlit("--to-web-url");
    assert("-v"@.len() != "--verbose"@.len());
    assert("-v"@.len() != "--no-color"@.len());
    assert("-v"@.len() != "--local-no-sync"@.len());
    assert("-v"@[1] != "-h"@[1]);
    assert("-v"@.len() != "--help"@.len());
    assert("-v"@[1] != "-t"@[1]);
    assert("-v"@.len() != "--time"@.len());
    assert("-v"@.len() != "--sql"@.len());
    assert("-v"@.len() != "--env"@.len());
    assert("-v"@.len() != "--to-app-url"@.len());
    assert("-v"@.len() != "--to-web-url"@.len());
    assert("--verbose"@.len() != "--no-color"@.len());
    assert("--verbose"@.len() != "--local-no-sync"@.len());
    assert("--verbose"@.len() != "-h"@.len());
    assert("--verbose"@.len() != "--help"@.len());
    assert("--verbose"@.len() != "-t"@.len());
    assert("--verbose"@.len() != "--time"@.len());
    assert("--verbose"@.len() != "--sql"@.len());
    assert("--verbose"@.len() != "--env"@.len());
    assert("--verbose"@.len() != "--to-app-url"@.len());
    assert("--verbose"@.len() != "--to-web-url"@.len());
    assert("--no-color"@.len() != "--local-no-sync"@.len());
    assert("--no-color"@.len() != "-h"@.len());
    assert("--no-color"@.len() != "--help"@.len());
    assert("--no-color"@.len() != "-t"@.len());
    assert("--no-color"@.len() != "--time"@.len());
    assert("--no-color"@.len() != "--sql"@.len());
    assert("--no-color"@.len() != "--env"@.len());
    assert("--no-color"@.len() != "--to-app-url"@.len());
    assert("--no-color"@.len() != "--to-web-url"@.len());
    assert("--local-no-sync"@.len() != "-h"@.len());
    assert("--local-no-sync"@.len() != "--help"@.len());
    assert("--local-no-sync"@.len() != "-t"@.len());
    assert("--local-no-sync"@.len() != "--time"@.len());
    assert("--local-no-sync"@.len() != "--sql"@.len());
    assert("--local-no-sync"@.len() != "--env"@.len());
    assert("--local-no-sync"@.len() != "--to-app-url"@.len());
    assert("--local-no-sync"@.len() != "--to-web-url"@.len());
    assert("-h"@.len() != "--help"@.len());
    assert("-h"@[1] != "-t"@[1]);
    assert("-h"@.len() != "--time"@.len());
    assert("-h"@.len() != "--sql"@.len());
    assert("-h"@.len() != "--env"@.len());
    assert("-h"@.len() != "--to-app-url"@.len());
    assert("-h"@.len() != "--to-web-url"@.len());
    assert("--help"@.len() != "-t"@.len());
    assert("--help"@[2] != "--time"@[2]);
    assert("--help"@.len() != "--sql"@.len());
    assert("--help"@.len() != "--env"@.len());
    assert("--help"@.len() != "--to-app-url"@.len());
    assert("--help"@.len() != "--to-web-url"@.len());
    assert("-t"@.len() != "--time"@.len());
    assert("-t"@.len() != "--sql"@.len());
    assert("-t"@.len() != "--env"@.len());
    assert("-t"@.len() != "--to-app-url"@.len());
    assert("-t"@.len() != "--to-web-url"@.len());
    assert("--time"@.len() != "--sql"@.len());
    assert("--time"@.len() != "--env"@.len());
    assert("--time"@.len() != "--to-app-url"@.len());
    assert("--time"@.len() != "--to-web-url"@.len());
    assert("--sql"@[2] != "--env"@[2]);
    assert("--sql"@.len() != "--to-app-url"@.len());
    assert("--sql"@.len() != "--to-web-url"@.len());
    assert("--env"@.len() != "--to-app-url"@.len());
    assert("--env"@.len() != "--to-web-url"@.len());
    assert("--to-app-url"@[5] != "--to-web-url"@[5]);
}

/// A switch sets its own option and no other, and the arguments behind it are read on.
pub proof fn law_switches(rest: Seq<Seq<char>>, o: OptionsView)
    ensures
        parsed(seq!["-v"@] + rest, o) == parsed(rest, OptionsView { verbose: true, ..o }),
        parsed(seq!["--verbose"@] + rest, o) == parsed(rest, OptionsView { verbose: true, ..o }),
        parsed(seq!["--no-color"@] + rest, o) == parsed(rest, OptionsView { no_color: true, ..o }),
        parsed(seq!["--local-no-sync"@] + rest, o) == parsed(
            rest,
            OptionsView { local_no_sync: true, ..o },
        ),
        parsed(seq!["-h"@] + rest, o) == ParsedView::Help,
        parsed(seq!["--help"@] + rest, o) == ParsedView::Help,
{
    lemma_options_differ();
    assert((seq!["-v"@] + rest).drop_first() =~= rest);
    assert((seq!["--verbose"@] + rest).drop_first() =~= rest);
    assert((seq!["--no-color"@] + rest).drop_first() =~= rest);
    assert((seq!["--local-no-sync"@] + rest).drop_first() =~= rest);
    assert((seq!["-h"@] + rest)[0] == "-h"@);
    assert((seq!["--help"@] + rest)[0] == "--help"@);
}

/// An option that takes a value takes the next argument, whatever that is, sets no other
/// option, and the arguments behind the value are read on.
pub proof fn law_options_take_the_next_argument(
    value: Seq<char>,
    rest: Seq<Seq<char>>,
    o: OptionsView,
)
    ensures
        parsed(seq!["-t"@, value] + rest, o) == parsed(
            rest,
            OptionsView { backfill: Some(value), ..o },
        ),
        parsed(seq!["--time"@, value] + rest, o) == parsed(
            rest,
            OptionsView { backfill: Some(value), ..o },
        ),
        parsed(seq!["--sql"@, value] + rest, o) == parsed(
            rest,
            OptionsView { sql_path: Some(value), ..o },
        ),
        parsed(seq!["--env"@, value] + rest, o) == parsed(
            rest,
            OptionsView { env_path: Some(value), ..o },
        ),
        parsed(seq!["--to-app-url"@, value] + rest, o) == parsed(
            rest,
            OptionsView { link_for: Some((value, false)), ..o },
        ),
        parsed(seq!["--to-web-url"@, value] + rest, o) == parsed(
            rest,
            OptionsView { link_for: Some((value, true)), ..o },
        ),
{
    lemma_options_differ();
    assert((seq!["-t"@, value] + rest).drop_first().drop_first() =~= rest);
    assert((seq!["--time"@, value] + rest).drop_first().drop_first() =~= rest);
    assert((seq!["--sql"@, value] + rest).drop_first().drop_first() =~= rest);
    assert((seq!["--env"@, value] + rest).drop_first().drop_first() =~= rest);
    assert((seq!["--to-app-url"@, value] + rest).drop_first().drop_first() =~= rest);
    assert((seq!["--to-web-url"@, value] + rest).drop_first().drop_first() =~= rest);
}

/// An option without its value at the end of the arguments is told by name.
pub proof fn law_missing_values(o: OptionsView)
    ensures
        parsed(seq!["-t"@], o) == ParsedView::Missing("missing value for -t (e.g. -t 1h)"@),
        parsed(seq!["--time"@], o) == ParsedView::Missing("missing value for -t (e.g. -t 1h)"@),
        parsed(seq!["--sql"@], o) == ParsedView::Missing(
            "missing value for --sql (e.g. --sql=slack.db)"@,
        ),
        parsed(seq!["--env"@], o) == ParsedView::Missing(
            "missing value for --env (e.g. --env=/path/.env)"@,
        ),
        parsed(seq!["--to-app-url"@], o) == ParsedView::Missing(
            "missing message id for "@ + "--to-app-url"@,
        ),
        parsed(seq!["--to-web-url"@], o) == ParsedView::Missing(
            "missing message id for "@ + "--to-web-url"@,
        ),
{
    lemma_options_differ();
}

/// A value behind the equals sign counts as it is, whatever it holds and also where it is
/// empty.
pub proof fn law_values_behind_the_equals_sign(
    value: Seq<char>,
    rest: Seq<Seq<char>>,
    o: OptionsView,
)
    ensures
        parsed(seq!["--sql="@ + value] + rest, o) == parsed(
            rest,
            OptionsView { sql_path: Some(value), ..o },
        ),
        parsed(seq!["--env="@ + value] + rest, o) == parsed(
            rest,
            OptionsView { env_path: Some(value), ..o },
        ),
        parsed(seq!["--to-app-url="@ + value] + rest, o) == parsed(
            rest,
            OptionsView { link_for: Some((value, false)), ..o },
        ),
        parsed(seq!["--to-web-url="@ + value] + rest, o) == parsed(
            rest,
            OptionsView { link_for: Some((value, true)), ..o },
        ),
{
    lemma_sql_value(value, rest, o);
    lemma_env_value(value, rest, o);
    lemma_link_value(value, rest, o, "--to-app-url"@, 'a');
    reveal_strlit("--to-app-url");
    reveal_strlit("--to-app-url=");
    reveal_strlit("--to-web-url");
    reveal_strlit("--to-web-url=");
    assert("--to-app-url"@ + seq!['='] + value =~= "--to-app-url="@ + value);
    lemma_link_value(value, rest, o, "--to-web-url"@, 'w');
    assert("--to-web-url"@ + seq!['='] + value =~= "--to-web-url="@ + value);
    assert("--to-app-url"@[5] == 'a' && "--to-web-url"@[5] == 'w');
}

proof fn lemma_sql_value(value: Seq<char>, rest: Seq<Seq<char>>, o: OptionsView)
    ensures
        parsed(seq!["--sql="@ + value] + rest, o) == parsed(
            rest,
            OptionsView { sql_path: Some(value), ..o },
        ),
{
    reveal_strlit("-v");
    reveal_strlit("--verbose");
    reveal_strlit("--no-color");
    reveal_strlit("--local-no-sync");
    reveal_strlit("-h");
    reveal_strlit("--help");
    reveal_strlit("-t");
    reveal_strlit("--time");
    reveal_strlit("--sql");
    reveal_strlit("--env");
    reveal_strlit("--to-app-url");
    reveal_strlit("--to-web-url");
    reveal_strlit("--sql=");
    reveal_strlit("--env=");
    reveal_strlit("--to-app-url=");
    reveal_strlit("--to-web-url=");
    let a = "--sql="@ + value;
    assert((seq![a] + rest).drop_first() =~= rest);
    law_starting_with(a, "--sql="@, value);
    assert(a.skip("--sql="@.len() as int) =~= value);
    assert(a[0] == '-' && a[1] == '-' && a[2] == 's' && a[3] == 'q');
    assert("-v"@[1] == 'v' && "-h"@[1] == 'h' && "-t"@[1] == 't');
    assert("--verbose"@[2] == 'v' && "--no-color"@[2] == 'n' && "--local-no-sync"@[2] == 'l');
    assert("--help"@[2] == 'h' && "--time"@[2] == 't' && "--env"@[2] == 'e');
    assert("--to-app-url"@[2] == 't' && "--to-web-url"@[2] == 't');
    assert(a.len() >= 6 && "--sql"@.len() == 5);
}

proof fn lemma_env_value(value: Seq<char>, rest: Seq<Seq<char>>, o: OptionsView)
    ensures
        parsed(seq!["--env="@ + value] + rest, o) == parsed(
            rest,
            OptionsView { env_path: Some(value), ..o },
        ),
{
    reveal_strlit("-v");
    reveal_strlit("--verbose");
    reveal_strlit("--no-color");
    reveal_strlit("--local-no-sync");
    reveal_strlit("-h");
    reveal_strlit("--help");
    reveal_strlit("-t");
    reveal_strlit("--time");
    reveal_strlit("--sql");
    reveal_strlit("--env");
    reveal_strlit("--to-app-url");
    reveal_strlit("--to-web-url");
    reveal_strlit("--sql=");
    reveal_strlit("--env=");
    reveal_strlit("--to-app-url=");
    reveal_strlit("--to-web-url=");
    let a = "--env="@ + value;
    assert((seq![a] + rest).drop_first() =~= rest);
    law_starting_with(a, "--env="@, value);
    assert(a.skip("--env="@.len() as int) =~= value);
    assert(a[0] == '-' && a[1] == '-' && a[2] == 'e' && a[3] == 'n');
    assert("-v"@[1] == 'v' && "-h"@[1] == 'h' && "-t"@[1] == 't');
    assert("--verbose"@[2] == 'v' && "--no-color"@[2] == 'n' && "--local-no-sync"@[2] == 'l');
    assert("--help"@[2] == 'h' && "--time"@[2] == 't' && "--sql"@[2] == 's');
    assert("--to-app-url"@[2] == 't' && "--to-web-url"@[2] == 't');
    assert(a.len() >= 6 && "--env"@.len() == 5);
    if starts_with(a, "--sql="@) {
        assert(a.take(6)[2] == a[2]);
    }
}

proof fn lemma_link_value(
    value: Seq<char>,
    rest: Seq<Seq<char>>,
    o: OptionsView,
    flag: Seq<char>,
    form: char,
)
    requires
        flag == "--to-app-url"@ && form == 'a' || flag == "--to-web-url"@ && form == 'w',
    ensures
        parsed(seq![flag + seq!['='] + value] + rest, o) == parsed(
            rest,
            OptionsView { link_for: Some((value, form == 'w')), ..o },
        ),
{
    reveal_strlit("-v");
    reveal_strlit("--verbose");
    reveal_strlit("--no-color");
    reveal_strlit("--local-no-sync");
    reveal_strlit("-h");
    reveal_strlit("--help");
    reveal_strlit("-t");
    reveal_strlit("--time");
    reveal_strlit("--sql");
    reveal_strlit("--env");
    reveal_strlit("--to-app-url");
    reveal_strlit("--to-web-url");
    reveal_strlit("--sql=");
    reveal_strlit("--env=");
    reveal_strlit("--to-app-url=");
    reveal_strlit("--to-web-url=");
    let a = flag + seq!['='] + value;
    assert((seq![a] + rest).drop_first() =~= rest);
    assert forall|i: int| 0 <= i < flag.len() implies flag[i] != '=' by {
        assert(flag.len() == 12);
        assert("--to-app-url"@[i] != '=' && "--to-web-url"@[i] != '=') by {
            assert(i == 0 || i == 1 || i == 2 || i == 3 || i == 4 || i == 5 || i == 6 || i == 7 || i
                == 8 || i == 9 || i == 10 || i == 11);
        }
    }
    law_first_division(flag, value, '=');
    assert(flag[5] == form);
    if form == 'a' {
        law_starting_with(a, "--to-app-url="@, value);
        assert(a =~= "--to-app-url="@ + value);
    } else {
        law_starting_with(a, "--to-web-url="@, value);
        assert(a =~= "--to-web-url="@ + value);
    }
    assert(a[0] == '-' && a[1] == '-' && a[2] == 't' && a[3] == 'o' && a[12] == '=');
    assert("-v"@[1] == 'v' && "-h"@[1] == 'h' && "-t"@[1] == 't');
    assert("--verbose"@[2] == 'v' && "--no-color"@[2] == 'n' && "--local-no-sync"@[2] == 'l');
    assert("--help"@[2] == 'h' && "--time"@[3] == 'i' && "--sql"@[2] == 's' && "--env"@[2] == 'e');
    assert("--to-app-url"@.len() == 12 && "--to-web-url"@.len() == 12 && a.len() >= 13);
    if starts_with(a, "--sql="@) {
        assert(a.take(6)[2] == a[2]);
    }
    if starts_with(a, "--env="@) {
        assert(a.take(6)[2] == a[2]);
    }
    assert("--to-web-url"@[5] == 'w' && "--to-app-url"@[5] == 'a');
}

/// Every other argument is unknown, wherever it stands behind what can be read.
pub proof fn law_other_arguments_are_unknown(a: Seq<char>, rest: Seq<Seq<char>>, o: OptionsView)
    requires
        a != "-v"@ && a != "--verbose"@ && a != "--no-color"@ && a != "--local-no-sync"@,
        a != "-h"@ && a != "--help"@ && a != "-t"@ && a != "--time"@ && a != "--sql"@,
        a != "--env"@ && a != "--to-app-url"@ && a != "--to-web-url"@,
        !starts_with(a, "--sql="@) && !starts_with(a, "--env="@),
        !starts_with(a, "--to-app-url="@) && !starts_with(a, "--to-web-url="@),
    ensures
        parsed(seq![a] + rest, o) == ParsedView::Unknown(a),
{
    assert((seq![a] + rest)[0] == a);
}

/// A link is made where one is asked for, from the database that is named and for the
/// message whose number is given; that comes before everything else.
pub proof fn law_links_come_first(
    o: OptionsView,
    id: Seq<char>,
    web: bool,
    path: Seq<char>,
    n: i64,
)
    requires
        o.link_for == Some((id, web)),
    ensures
        o.sql_path == Some(path) && read_i64(id) == Some(n) ==> mode_of(o) == Ok::<
            ModeView,
            Seq<char>,
        >(ModeView::Link { path, id: n, web }),
        o.sql_path == Some(path) && read_i64(id) is None ==> mode_of(o) == Err::<
            ModeView,
            Seq<char>,
        >("message id must be a number, got "@ + debug_form(id)),
        o.sql_path is None ==> mode_of(o) == Err::<ModeView, Seq<char>>(
            "--to-app-url/--to-web-url look the message up in the database, so they need --sql=<file>"@,
        ),
{
}

/// Without a link to make, a database is shown where nothing is to be fetched, and messages
/// are streamed otherwise, with a database or without.
pub proof fn law_replays_and_streams(o: OptionsView, path: Seq<char>)
    requires
        o.link_for is None,
    ensures
        !o.local_no_sync ==> mode_of(o) == Ok::<ModeView, Seq<char>>(ModeView::Stream),
        o.local_no_sync && o.sql_path == Some(path) ==> mode_of(o) == Ok::<ModeView, Seq<char>>(
            ModeView::Replay { path },
        ),
        o.local_no_sync && o.sql_path is None ==> mode_of(o) == Err::<ModeView, Seq<char>>(
            "--local-no-sync reads from the database, so it needs --sql=<file>"@,
        ),
{
}

/// A number counts seconds, minutes, hours or days by the letter behind it, and seconds
/// without one.
pub proof fn law_durations(digits: Seq<char>)
    requires
        is_digits(digits),
        digits_value(digits) * 86400 <= u64::MAX,
    ensures
        duration_secs(digits) == Some(digits_value(digits) as u64),
        duration_secs(digits.push('s')) == Some(digits_value(digits) as u64),
        duration_secs(digits.push('m')) == Some((digits_value(digits) * 60) as u64),
        duration_secs(digits.push('h')) == Some((digits_value(digits) * 3600) as u64),
        duration_secs(digits.push('d')) == Some((digits_value(digits) * 86400) as u64),
{
    lemma_value_is_not_negative(digits);
    law_units_count_seconds(digits, 's');
    law_units_count_seconds(digits, 'm');
    law_units_count_seconds(digits, 'h');
    law_units_count_seconds(digits, 'd');
}

proof fn lemma_value_is_not_negative(digits: Seq<char>)
    requires
        forall|i: int| 0 <= i < digits.len() ==> is_digit(#[trigger] digits[i]),
    ensures
        digits_value(digits) >= 0,
    decreases digits.len(),
{
    if digits.len() > 0 {
        assert forall|i: int| 0 <= i < digits.drop_last().len() implies is_digit(
            #[trigger] digits.drop_last()[i],
        ) by {
            assert(digits.drop_last()[i] == digits[i]);
        }
        lemma_value_is_not_negative(digits.drop_last());
        assert(is_digit(digits[digits.len() - 1]));
    }
}

/// White space around a duration does not count, and neither does anything that is no
/// number with one of the four letters.
pub proof fn law_what_is_no_duration(text: Seq<char>)
    ensures
        duration_secs(trim(text)) == duration_secs(text),
        is_blank(text) ==> duration_secs(text) is None,
        ({
            let s = trim(text);
            s.len() > 0 && !is_digit(s.last()) && s.last() != 's' && s.last() != 'm' && s.last()
                != 'h' && s.last() != 'd' ==> duration_secs(text) is None
        }),
        ({
            let s = trim(text);
            s.len() > 0 && is_digit(s.last()) && read_u64(s) is None ==> duration_secs(text) is None
        }),
        ({
            let s = trim(text);
            s.len() > 0 && !is_digit(s.last()) && read_u64(s.drop_last()) is None ==> duration_secs(
                text,
            ) is None
        }),
{
    law_trimming(text);
    if trim(text).len() > 0 {
        assert(trim_start(trim(text)) == trim(text));
        assert(trim_end(trim(text)) == trim(text));
    }
}

/// The complaints about a number and about a duration quote what was given.
pub proof fn law_complaints_quote_what_was_given(quoted: Seq<char>)
    ensures
        bad_id(quoted) == "message id must be a number, got "@ + quoted,
        bad_duration(quoted) == "invalid -t value: "@ + quoted + " (try e.g. 1h, 30m, 2d)"@,
{
}

/// A name in a directory stands behind the directory and one slash.
pub proof fn law_names_in_directories(dir: Seq<u8>, name: Seq<char>)
    ensures
        dir.len() > 0 && dir.last() != 0x2f ==> path_in(dir, name) == dir + seq![0x2fu8]
            + encode_utf8(name),
        dir.len() > 0 && dir.last() == 0x2f ==> path_in(dir, name) == dir + encode_utf8(name),
        dir.len() == 0 ==> path_in(dir, name) == encode_utf8(name),
{
    assert(dir.push(0x2fu8) =~= dir + seq![0x2fu8]);
    if dir.len() == 0 {
        assert(dir + encode_utf8(name) =~= encode_utf8(name));
    }
}

/// The settings are in the directory for them where one is named, in the one below the
/// home directory otherwise, and nowhere without a home.
pub proof fn law_settings_are_found(config_home: Seq<u8>, home: Seq<u8>)
    ensures
        config_home.len() > 0 ==> env_file(Some(config_home), Some(home)) == Some(
            path_in(path_in(config_home, "myslackcli"@), ".env"@),
        ),
        config_home.len() > 0 ==> env_file(Some(config_home), None) == env_file(
            Some(config_home),
            Some(home),
        ),
        env_file(None, Some(home)) == Some(
            path_in(path_in(path_in(home, ".config"@), "myslackcli"@), ".env"@),
        ),
        env_file(Some(Seq::empty()), Some(home)) == env_file(None, Some(home)),
        env_file(None, None) is None,
        env_file(Some(Seq::empty()), None) is None,
{
}

} // verus!
