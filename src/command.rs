//! Command lines: trimming, splitting into words, and recognising the
//! built-in commands.
use vstd::prelude::*;
use vstd::string::*;
use crate::text::{chars_of, decimal, decimal_string, is_space, is_space_char, same_text, string_of};
use crate::utils::{lemma_tokens_echo_hi, tokenize_command, tokens_of, views_of};

verus! {

/// A command line, recognised.
#[derive(Clone, Debug, PartialEq, Eq)]
pub enum Command {
    /// `exit`: end the process.
    Exit,
    /// `cd [dir]`: change directory, to `/` without an argument.
    ChangeDir(String),
    /// `pwd`: show the current directory.
    PrintDir,
    /// `clear`: clear the screen.
    ClearScreen,
    /// `echo words...`: show the words, joined by single spaces.
    Echo(String),
    /// `mkdir paths...`
    MakeDirs(Vec<String>),
    /// `touch paths...`
    Touch(Vec<String>),
    /// `cat paths...`
    Cat(Vec<String>),
    /// `rm paths...`
    Remove(Vec<String>),
    /// `mv source dest`
    Move(String, String),
    /// `cp source dest`
    Copy(String, String),
    /// A built-in used wrongly: the usage line to show.
    Usage(String),
    /// `ls [-a|--all] [-l] [path]`
    List { show_all: bool, long_format: bool, path: String },
    /// `config load [path]`
    LoadConfig(Option<String>),
    /// Anything else: a program and its arguments.
    External(String, Vec<String>),
}

/// `s` without leading characters of Unicode's `White_Space` property.
pub open spec fn trim_start(s: Seq<char>) -> Seq<char>
    decreases s.len(),
{
    if s.len() > 0 && is_space(s[0]) {
        trim_start(s.drop_first())
    } else {
        s
    }
}

/// `s` without trailing characters of Unicode's `White_Space` property.
pub open spec fn trim_end(s: Seq<char>) -> Seq<char>
    decreases s.len(),
{
    if s.len() > 0 && is_space(s.last()) {
        trim_end(s.drop_last())
    } else {
        s
    }
}

pub open spec fn trimmed(s: Seq<char>) -> Seq<char> {
    trim_end(trim_start(s))
}

/// The words joined by single spaces.
pub open spec fn joined(words: Seq<Seq<char>>) -> Seq<char>
    decreases words.len(),
{
    if words.len() == 0 {
        seq![]
    } else if words.len() == 1 {
        words[0]
    } else {
        joined(words.drop_last()) + seq![' '] + words.last()
    }
}

pub open spec fn is_flag(w: Seq<char>) -> bool {
    w.len() > 0 && w[0] == '-'
}

/// The path that `ls` lists: its last argument that is not a flag, or `.`.
pub open spec fn list_path(args: Seq<Seq<char>>) -> Seq<char>
    decreases args.len(),
{
    if args.len() == 0 {
        "."@
    } else if !is_flag(args.last()) {
        args.last()
    } else {
        list_path(args.drop_last())
    }
}

/// Whether `c` is the command that the words of a command line ask for.
pub open spec fn describes(words: Seq<Seq<char>>, c: Command) -> bool {
    let name = words[0];
    let args = words.drop_first();
    if name == "exit"@ {
        c is Exit
    } else if name == "cd"@ {
        c matches Command::ChangeDir(d) && d@ == if args.len() > 0 {
            args[0]
        } else {
            "/"@
        }
    } else if name == "pwd"@ {
        c is PrintDir
    } else if name == "clear"@ {
        c is ClearScreen
    } else if name == "echo"@ {
        c matches Command::Echo(t) && t@ == joined(args)
    } else if name == "mkdir"@ {
        c matches Command::MakeDirs(p) && views_of(p@) == args
    } else if name == "touch"@ {
        c matches Command::Touch(p) && views_of(p@) == args
    } else if name == "cat"@ {
        c matches Command::Cat(p) && views_of(p@) == args
    } else if name == "rm"@ {
        c matches Command::Remove(p) && views_of(p@) == args
    } else if name == "mv"@ {
        if args.len() == 2 {
            c matches Command::Move(a, b) && a@ == args[0] && b@ == args[1]
        } else {
            c matches Command::Usage(u) && u@ == "Usage: mv <source> <dest>"@
        }
    } else if name == "cp"@ {
        if args.len() == 2 {
            c matches Command::Copy(a, b) && a@ == args[0] && b@ == args[1]
        } else {
            c matches Command::Usage(u) && u@ == "Usage: cp <source> <dest>"@
        }
    } else if name == "ls"@ {
        c matches Command::List { show_all, long_format, path } && show_all == (args.contains(
            "-a"@,
        ) || args.contains("--all"@)) && long_format == args.contains("-l"@) && path@
            == list_path(args)
    } else if name == "config"@ {
        if args.len() > 0 && args[0] == "load"@ {
            c matches Command::LoadConfig(p) && match p {
                Some(p) => args.len() > 1 && p@ == args[1],
                None => args.len() <= 1,
            }
        } else {
            c matches Command::Usage(u) && u@ == "Usage: config load [path]"@
        }
    } else {
        c matches Command::External(n, a) && n@ == name && views_of(a@) == args
    }
}

/// Whether `r` is what the command line `line` asks for: nothing when it
/// has no words once trimmed, else the command its words describe.
pub open spec fn parses_command(line: Seq<char>, r: Option<Command>) -> bool {
    let words = tokens_of(trimmed(line));
    if trimmed(line).len() == 0 || words.len() == 0 {
        r is None
    } else {
        r matches Some(c) && describes(words, c)
    }
}

/// The characters of `s` without leading and trailing whitespace.
pub fn trim_chars(s: &str) -> (r: Vec<char>)
    ensures
        r@ == trimmed(s@),
{
    let cs = chars_of(s);
    let mut start: usize = 0;
    assert(cs@.subrange(0, cs@.len() as int) =~= cs@);
    while start < cs.len() && is_space_char(cs[start])
        invariant
            cs@ == s@,
            start <= cs@.len(),
            trim_start(cs@) == trim_start(cs@.subrange(start as int, cs@.len() as int)),
        decreases cs@.len() - start,
    {
        assert(cs@.subrange(start as int, cs@.len() as int).drop_first() =~= cs@.subrange(
            start as int + 1,
            cs@.len() as int,
        ));
        start += 1;
    }
    let ghost front = cs@.subrange(start as int, cs@.len() as int);
    assert(trim_start(s@) == front);
    let mut end: usize = cs.len();
    assert(front.subrange(0, front.len() as int) =~= front);
    while end > start && is_space_char(cs[end - 1])
        invariant
            start <= end <= cs@.len(),
            front == cs@.subrange(start as int, cs@.len() as int),
            trim_end(front) == trim_end(cs@.subrange(start as int, end as int)),
        decreases end - start,
    {
        assert(cs@.subrange(start as int, end as int).drop_last() =~= cs@.subrange(
            start as int,
            end as int - 1,
        ));
        end -= 1;
    }
    let mut r: Vec<char> = Vec::new();
    let mut i: usize = start;
    while i < end
        invariant
            start <= i <= end,
            end <= cs@.len(),
            r@ == cs@.subrange(start as int, i as int),
        decreases end - i,
    {
        r.push(cs[i]);
        i += 1;
        assert(r@ =~= cs@.subrange(start as int, i as int));
    }
    r
}

/// The words joined by single spaces.
pub fn join_words(words: &[String]) -> (r: String)
    ensures
        r@ == joined(views_of(words@)),
{
    let mut r = String::new();
    let mut i: usize = 0;
    while i < words.len()
        invariant
            i <= words@.len(),
            r@ == joined(views_of(words@.subrange(0, i as int))),
        decreases words@.len() - i,
    {
        let ghost prefix = views_of(words@.subrange(0, i as int + 1));
        assert(prefix.drop_last() =~= views_of(words@.subrange(0, i as int)));
        if i > 0 {
            proof {
                reveal_strlit(" ");
            }
            r.append(" ");
        } else {
            assert(r@ =~= seq![]);
        }
        r.append(words[i].as_str());
        proof {
            if i == 0 {
                assert(r@ =~= prefix[0]);
            } else {
                assert(r@ =~= joined(prefix.drop_last()) + seq![' '] + prefix.last());
            }
        }
        i += 1;
    }
    assert(words@.subrange(0, words@.len() as int) =~= words@);
    r
}

fn starts_with_dash(w: &String) -> (r: bool)
    ensures
        r == is_flag(w@),
{
    let cs = chars_of(w.as_str());
    cs.len() > 0 && cs[0] == '-'
}

/// The options and path of an `ls` command.
fn list_options(args: &[String]) -> (r: (bool, bool, String))
    ensures
        r.0 == (views_of(args@).contains("-a"@) || views_of(args@).contains("--all"@)),
        r.1 == views_of(args@).contains("-l"@),
        r.2@ == list_path(views_of(args@)),
{
    proof {
        reveal_strlit("-a");
        reveal_strlit("--all");
        reveal_strlit("-l");
        assert("-a"@[1] != "-l"@[1]);
        assert("--all"@.len() != "-l"@.len());
        assert(is_flag("-a"@) && is_flag("--all"@) && is_flag("-l"@));
    }
    let mut show_all = false;
    let mut long_format = false;
    let mut path = ".".to_owned();
    let mut i: usize = 0;
    while i < args.len()
        invariant
            i <= args@.len(),
            "-a"@ != "-l"@,
            "--all"@ != "-l"@,
            is_flag("-a"@) && is_flag("--all"@) && is_flag("-l"@),
            show_all == (views_of(args@.subrange(0, i as int)).contains("-a"@) || views_of(
                args@.subrange(0, i as int),
            ).contains("--all"@)),
            long_format == views_of(args@.subrange(0, i as int)).contains("-l"@),
            path@ == list_path(views_of(args@.subrange(0, i as int))),
        decreases args@.len() - i,
    {
        let ghost before = views_of(args@.subrange(0, i as int));
        let ghost after = views_of(args@.subrange(0, i as int + 1));
        assert(after =~= before.push(args@[i as int]@));
        assert(after.drop_last() =~= before);
        let arg = &args[i];
        if same_text(arg.as_str(), "-a") || same_text(arg.as_str(), "--all") {
            show_all = true;
        } else if same_text(arg.as_str(), "-l") {
            long_format = true;
        } else if !starts_with_dash(arg) {
            path = arg.clone();
        }
        proof {
            assert(after.last() == arg@);
            lemma_contains_push(before, arg@, "-a"@);
            lemma_contains_push(before, arg@, "--all"@);
            lemma_contains_push(before, arg@, "-l"@);
        }
        i += 1;
    }
    assert(args@.subrange(0, args@.len() as int) =~= args@);
    (show_all, long_format, path)
}

proof fn lemma_contains_push(s: Seq<Seq<char>>, x: Seq<char>, w: Seq<char>)
    ensures
        s.push(x).contains(w) == (s.contains(w) || x == w),
{
    if s.push(x).contains(w) {
        let k = choose|k: int| 0 <= k < s.push(x).len() && s.push(x)[k] == w;
        if k < s.len() {
            assert(s[k] == w);
        }
    }
    if s.contains(w) {
        let k = choose|k: int| 0 <= k < s.len() && s[k] == w;
        assert(s.push(x)[k] == w);
    }
    if x == w {
        assert(s.push(x)[s.len() as int] == w);
    }
}

fn strings_of(words: &[String]) -> (r: Vec<String>)
    ensures
        r@ == words@,
{
    let mut r: Vec<String> = Vec::new();
    let mut i: usize = 0;
    while i < words.len()
        invariant
            i <= words@.len(),
            r@ == words@.subrange(0, i as int),
        decreases words@.len() - i,
    {
        r.push(words[i].clone());
        i += 1;
        assert(r@ =~= words@.subrange(0, i as int));
    }
    assert(r@ =~= words@);
    r
}

/// Recognises the command that a command line asks for.
pub fn parse_command(cmd_line: &str) -> (r: Option<Command>)
    ensures
        parses_command(cmd_line@, r),
{
    let line = trim_chars(cmd_line);
    if line.len() == 0 {
        return None;
    }
    let text = string_of(&line);
    let words = tokenize_command(text.as_str());
    if words.len() == 0 {
        return None;
    }
    let ghost ws = views_of(words@);
    assert(ws.len() == words@.len());
    let name = words[0].as_str();
    let args = words.as_slice().split_at(1).1;
    assert(views_of(args@) =~= ws.drop_first());
    let command = if same_text(name, "exit") {
        Command::Exit
    } else if same_text(name, "cd") {
        if args.len() > 0 {
            Command::ChangeDir(args[0].clone())
        } else {
            Command::ChangeDir("/".to_owned())
        }
    } else if same_text(name, "pwd") {
        Command::PrintDir
    } else if same_text(name, "clear") {
        Command::ClearScreen
    } else if same_text(name, "echo") {
        Command::Echo(join_words(args))
    } else if same_text(name, "mkdir") {
        Command::MakeDirs(strings_of(args))
    } else if same_text(name, "touch") {
        Command::Touch(strings_of(args))
    } else if same_text(name, "cat") {
        Command::Cat(strings_of(args))
    } else if same_text(name, "rm") {
        Command::Remove(strings_of(args))
    } else if same_text(name, "mv") {
        if args.len() == 2 {
            Command::Move(args[0].clone(), args[1].clone())
        } else {
            Command::Usage("Usage: mv <source> <dest>".to_owned())
        }
    } else if same_text(name, "cp") {
        if args.len() == 2 {
            Command::Copy(args[0].clone(), args[1].clone())
        } else {
            Command::Usage("Usage: cp <source> <dest>".to_owned())
        }
    } else if same_text(name, "ls") {
        let (show_all, long_format, path) = list_options(args);
        Command::List { show_all, long_format, path }
    } else if same_text(name, "config") {
        if args.len() > 0 && same_text(args[0].as_str(), "load") {
            if args.len() > 1 {
                Command::LoadConfig(Some(args[1].clone()))
            } else {
                Command::LoadConfig(None)
            }
        } else {
            Command::Usage("Usage: config load [path]".to_owned())
        }
    } else {
        Command::External(words[0].clone(), strings_of(args))
    };
    Some(command)
}

/// `s` right-aligned in a field of `width` characters.
pub open spec fn pad_left(s: Seq<char>, width: nat) -> Seq<char> {
    if s.len() >= width {
        s
    } else {
        Seq::new((width - s.len()) as nat, |i: int| ' ') + s
    }
}

/// The line that `ls` shows for a directory entry: its name, or in long
/// format a directory marker, its size right-aligned in twelve columns and
/// its name.
pub open spec fn listing_text(name: Seq<char>, is_dir: bool, size: u64, long_format: bool) -> Seq<char> {
    if long_format {
        (if is_dir {
            "<DIR>"@
        } else {
            "     "@
        }) + seq![' '] + pad_left(decimal(size as nat), 12) + seq![' '] + name
    } else {
        name
    }
}

pub open spec fn is_hidden(name: Seq<char>) -> bool {
    name.len() > 0 && name[0] == '.'
}

/// The line that `ls` shows for an entry, or `None` for a hidden entry
/// when hidden entries are not shown.
pub fn listing_entry(name: &str, is_dir: bool, size: u64, show_all: bool, long_format: bool) -> (r:
    Option<String>)
    ensures
        !show_all && is_hidden(name@) ==> r is None,
        show_all || !is_hidden(name@) ==> (r matches Some(t) && t@ == listing_text(
            name@,
            is_dir,
            size,
            long_format,
        )),
{
    let cs = chars_of(name);
    if !show_all && cs.len() > 0 && cs[0] == '.' {
        return None;
    }
    if !long_format {
        return Some(name.to_owned());
    }
    let mut line = if is_dir {
        "<DIR>".to_owned()
    } else {
        "     ".to_owned()
    };
    proof {
        reveal_strlit(" ");
        assert(" "@ =~= seq![' ']);
    }
    line.append(" ");
    let digits = decimal_string(size);
    let n = digits.unicode_len();
    let mut pad: usize = n;
    let ghost start = line@;
    while pad < 12
        invariant
            n == digits@.len(),
            " "@ == seq![' '],
            n <= pad <= 12 || (n > 12 && pad == n),
            line@ == start + Seq::new((pad - n) as nat, |i: int| ' '),
        decreases 12 - pad,
    {
        line.append(" ");
        pad += 1;
        assert(line@ =~= start + Seq::new((pad - n) as nat, |i: int| ' '));
    }
    line.append(digits.as_str());
    line.append(" ");
    line.append(name);
    proof {
        if n >= 12 {
            assert(Seq::new((pad - n) as nat, |i: int| ' ') =~= Seq::<char>::empty());
        }
        assert(line@ =~= listing_text(name@, is_dir, size, long_format));
    }
    Some(line)
}

/// The command line `echo hi` asks to show the line `hi`.
pub proof fn lemma_echo_hi_command(c: Option<Command>)
    requires
        parses_command("echo hi"@, c),
    ensures
        c matches Some(Command::Echo(t)) && t@ == "hi"@,
{
    reveal_strlit("echo hi");
    reveal_strlit("echo");
    reveal_strlit("hi");
    reveal_strlit("exit");
    reveal_strlit("cd");
    reveal_strlit("pwd");
    reveal_strlit("clear");
    let s = "echo hi"@;
    assert(!is_space(s[0]) && !is_space(s.last()));
    assert(trim_start(s) == s);
    assert(trim_end(s) == s);
    lemma_tokens_echo_hi();
    let words = tokens_of(trimmed(s));
    assert(words == seq!["echo"@, "hi"@]);
    assert(words[0] != "exit"@) by {
        assert(words[0][1] != "exit"@[1]);
    }
    assert(words[0] != "cd"@ && words[0] != "pwd"@ && words[0] != "clear"@) by {
        assert(words[0].len() == 4);
    }
    let args = words.drop_first();
    assert(args =~= seq!["hi"@]);
    assert(joined(args) == "hi"@);
}

} // verus!
