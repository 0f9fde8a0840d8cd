//! Command lines of a run step: splitting into lines, and each line into
//! program and arguments with single and double quotes honoured.
use vstd::prelude::*;
use crate::environment::{texts, Environment};
use crate::substitution::{expand, expand_variables};
use crate::text::{blank, chars_of, is_blank, trim, trimmed};

verus! {

/// The characters that open and close a quoted span.
pub open spec fn is_quote(c: char) -> bool {
    c == '\'' || c == '"'
}

/// The tokens of `s`, given the quote that is open (if any), the token
/// being built, and the tokens already complete. Blanks outside quotes end
/// a token; a quote opens a span that only the same quote closes; inside a
/// span every other character is literal. Empty tokens are dropped.
pub open spec fn scan(
    s: Seq<char>,
    quote: Option<char>,
    current: Seq<char>,
    done: Seq<Seq<char>>,
) -> Seq<Seq<char>>
    decreases s.len(),
{
    if s.len() == 0 {
        if current.len() > 0 {
            done.push(current)
        } else {
            done
        }
    } else {
        let c = s[0];
        let rest = s.drop_first();
        match quote {
            Some(q) => if c == q {
                scan(rest, None, current, done)
            } else {
                scan(rest, quote, current.push(c), done)
            },
            None => if is_quote(c) {
                scan(rest, Some(c), current, done)
            } else if is_blank(c) {
                if current.len() > 0 {
                    scan(rest, None, seq![], done.push(current))
                } else {
                    scan(rest, None, current, done)
                }
            } else {
                scan(rest, None, current.push(c), done)
            },
        }
    }
}

/// The tokens of a command line.
pub open spec fn tokens(s: Seq<char>) -> Seq<Seq<char>> {
    scan(s, None, seq![], seq![])
}

/// Splits a command line into tokens: blanks outside quotes separate
/// tokens, and `'` or `"` quote a span taken literally, quotes removed.
pub fn tokenize(line: &str) -> (r: Vec<String>)
    ensures
        texts(r@) == tokens(line@),
{
    let s = chars_of(line);
    let mut quote: Option<char> = None;
    let mut current = String::new();
    let mut done: Vec<String> = Vec::new();
    let mut i: usize = 0;
    assert(s@.skip(0) =~= s@);
    assert(texts(done@) =~= Seq::<Seq<char>>::empty());
    assert(current@ =~= Seq::<char>::empty());
    while i < s.len()
        invariant
            s@ == line@,
            i <= s.len(),
            scan(s@.skip(i as int), quote, current@, texts(done@)) == tokens(line@),
        decreases s.len() - i,
    {
        let c = s[i];
        proof {
            assert(s@.skip(i as int).drop_first() =~= s@.skip(i + 1));
            assert(s@.skip(i as int)[0] == c);
        }
        match quote {
            Some(q) => {
                if c == q {
                    quote = None;
                } else {
                    current.push(c);
                }
            },
            None => {
                if c == '\'' || c == '"' {
                    quote = Some(c);
                } else if blank(c) {
                    if !current.as_str().is_empty() {
                        assert(current@.len() > 0);
                        let ghost before = texts(done@);
                        let finished = current;
                        current = String::new();
                        done.push(finished);
                        assert(texts(done@) =~= before.push(finished@));
                    } else {
                        assert(current@.len() == 0);
                    }
                } else {
                    current.push(c);
                }
            },
        }
        i = i + 1;
    }
    if !current.as_str().is_empty() {
        let ghost before = texts(done@);
        assert(current@.len() > 0);
        done.push(current);
        assert(texts(done@) =~= before.push(current@));
    } else {
        assert(current@.len() == 0);
    }
    done
}

/// The lines of `s` given the line being built and the lines complete:
/// each line feed ends a line, and the text after the last one is a line.
pub open spec fn split_from(s: Seq<char>, current: Seq<char>, done: Seq<Seq<char>>) -> Seq<
    Seq<char>,
>
    decreases s.len(),
{
    if s.len() == 0 {
        done.push(current)
    } else if s[0] == '\n' {
        split_from(s.drop_first(), seq![], done.push(current))
    } else {
        split_from(s.drop_first(), current.push(s[0]), done)
    }
}

/// The lines of `s`, separated by line feeds.
pub open spec fn lines(s: Seq<char>) -> Seq<Seq<char>> {
    split_from(s, seq![], seq![])
}

/// Splits a text at its line feeds.
pub fn split_lines(text: &str) -> (r: Vec<String>)
    ensures
        texts(r@) == lines(text@),
{
    let s = chars_of(text);
    let mut current = String::new();
    let mut done: Vec<String> = Vec::new();
    let mut i: usize = 0;
    assert(s@.skip(0) =~= s@);
    assert(texts(done@) =~= Seq::<Seq<char>>::empty());
    assert(current@ =~= Seq::<char>::empty());
    while i < s.len()
        invariant
            s@ == text@,
            i <= s.len(),
            split_from(s@.skip(i as int), current@, texts(done@)) == lines(text@),
        decreases s.len() - i,
    {
        let c = s[i];
        proof {
            assert(s@.skip(i as int).drop_first() =~= s@.skip(i + 1));
            assert(s@.skip(i as int)[0] == c);
        }
        if c == '\n' {
            let ghost before = texts(done@);
            let finished = current;
            current = String::new();
            done.push(finished);
            assert(texts(done@) =~= before.push(finished@));
        } else {
            current.push(c);
        }
        i = i + 1;
    }
    let ghost before = texts(done@);
    done.push(current);
    assert(texts(done@) =~= before.push(current@));
    done
}

/// A command to run: its text after substitution, and its tokens, the
/// first naming the program.
#[derive(Debug)]
pub struct CommandLine {
    pub text: String,
    pub argv: Vec<String>,
}

/// What a command line holds, as text.
pub struct CommandView {
    pub text: Seq<char>,
    pub argv: Seq<Seq<char>>,
}

impl View for CommandLine {
    type V = CommandView;

    open spec fn view(&self) -> CommandView {
        CommandView { text: self.text@, argv: texts(self.argv@) }
    }
}

/// The command of one line: the line trimmed and substituted, then
/// tokenized.
pub open spec fn line_command(line: Seq<char>, env: Map<Seq<char>, Seq<char>>) -> CommandView {
    let text = expand(trimmed(line), env);
    CommandView { text, argv: tokens(text) }
}

/// The commands of `lines`, in order, leaving out lines with no tokens.
pub open spec fn commands_of(lines: Seq<Seq<char>>, env: Map<Seq<char>, Seq<char>>) -> Seq<
    CommandView,
>
    decreases lines.len(),
{
    if lines.len() == 0 {
        seq![]
    } else {
        let before = commands_of(lines.drop_last(), env);
        let command = line_command(lines.last(), env);
        if command.argv.len() > 0 {
            before.push(command)
        } else {
            before
        }
    }
}

/// The commands that a run text asks for, one per line that holds a token.
pub open spec fn run_commands(run: Seq<char>, env: Map<Seq<char>, Seq<char>>) -> Seq<CommandView> {
    commands_of(lines(run), env)
}

/// The views of a sequence of commands.
pub open spec fn command_views(v: Seq<CommandLine>) -> Seq<CommandView> {
    v.map_values(|c: CommandLine| c@)
}

/// The commands of a run text: every line is trimmed, substituted and
/// tokenized; lines without tokens run nothing and are left out.
pub fn command_lines(run: &str, variables: &Environment) -> (r: Vec<CommandLine>)
    ensures
        command_views(r@) == run_commands(run@, variables@),
        forall|i: int| 0 <= i < r.len() ==> (#[trigger] r@[i]).argv.len() > 0,
{
    let all = split_lines(run);
    let mut r: Vec<CommandLine> = Vec::new();
    let mut i: usize = 0;
    while i < all.len()
        invariant
            i <= all.len(),
            texts(all@) == lines(run@),
            command_views(r@) == commands_of(texts(all@).take(i as int), variables@),
            forall|k: int| 0 <= k < r.len() ==> (#[trigger] r@[k]).argv.len() > 0,
        decreases all.len() - i,
    {
        let line = trim(all[i].as_str());
        let text = expand_variables(line.as_str(), variables);
        let argv = tokenize(text.as_str());
        proof {
            let upto = texts(all@).take(i + 1);
            assert(upto.drop_last() =~= texts(all@).take(i as int));
            assert(upto.last() == all@[i as int]@);
        }
        if argv.len() > 0 {
            let ghost before = command_views(r@);
            r.push(CommandLine { text, argv });
            assert(command_views(r@) =~= before.push(r@[r.len() - 1]@));
        } else {
            assert(texts(argv@).len() == 0);
        }
        i = i + 1;
    }
    assert(texts(all@).take(all.len() as int) =~= texts(all@));
    r
}

} // verus!
