use vstd::prelude::*;
use crate::text::{same_text, trim, trimmed};

verus! {

/// The words that `shlex::split` reads from `line` as a POSIX shell would,
/// or `None` where the quoting is broken.
pub uninterp spec fn shell_words(line: Seq<char>) -> Option<Seq<Seq<char>>>;

/// Splits `line` into words through `shlex::split`.
/// Claimed: the result is `shell_words` of the line, word for word.
#[verifier::external_body]
fn split_shell_words(line: &str) -> (words: Option<Vec<String>>)
    ensures
        match words {
            Some(w) => shell_words(line@) == Some(w.deep_view()),
            None => shell_words(line@) is None,
        },
{
    shlex::split(line)
}

/// The name of the backtest command.
pub open spec fn backtest_word() -> Seq<char> {
    seq!['b', 'a', 'c', 'k', 't', 'e', 's', 't']
}

/// The word after which every word is a value, whatever it looks like.
pub open spec fn escape_word() -> Seq<char> {
    seq!['-', '-']
}

/// A word that reads as an option (`-x`, `--name`) rather than as a value.
pub open spec fn is_option_word(w: Seq<char>) -> bool {
    w.len() > 1 && w[0] == '-'
}

/// Number of values that the backtest command takes.
pub const BACKTEST_ARGUMENT_COUNT: usize = 11;

/// The values among the words that follow a command name: every word up to
/// a first `--`, and every word after it; `Err` with the first word that
/// reads as an option before any `--`.
pub open spec fn positional_words(ws: Seq<Seq<char>>) -> Result<Seq<Seq<char>>, Seq<char>>
    decreases ws.len(),
{
    if ws.len() == 0 {
        Ok(Seq::empty())
    } else if ws[0] == escape_word() {
        Ok(ws.drop_first())
    } else if is_option_word(ws[0]) {
        Err(ws[0])
    } else {
        match positional_words(ws.drop_first()) {
            Ok(rest) => Ok(seq![ws[0]] + rest),
            Err(w) => Err(w),
        }
    }
}

/// Words that are neither options nor `--` are all values, in order.
pub proof fn lemma_plain_words_are_values(ws: Seq<Seq<char>>)
    requires
        forall|i: int| 0 <= i < ws.len() ==> !is_option_word(#[trigger] ws[i]) && ws[i] != escape_word(),
    ensures
        positional_words(ws) == Ok::<Seq<Seq<char>>, Seq<char>>(ws),
    decreases ws.len(),
{
    if ws.len() > 0 {
        let rest = ws.drop_first();
        assert forall|i: int| 0 <= i < rest.len() implies !is_option_word(#[trigger] rest[i]) && rest[i] != escape_word() by {
            assert(rest[i] == ws[i + 1]);
        }
        lemma_plain_words_are_values(rest);
        assert(!is_option_word(ws[0]) && ws[0] != escape_word());
        assert(seq![ws[0]] + rest =~= ws);
    } else {
        assert(ws =~= Seq::<Seq<char>>::empty());
    }
}

/// After `--` every word is a value, whatever it looks like: plain words,
/// then `--`, then any words give the plain words and all the words after.
pub proof fn lemma_escape_makes_values(before: Seq<Seq<char>>, after: Seq<Seq<char>>)
    requires
        forall|i: int| 0 <= i < before.len() ==> !is_option_word(#[trigger] before[i]) && before[i] != escape_word(),
    ensures
        positional_words(before + seq![escape_word()] + after) == Ok::<Seq<Seq<char>>, Seq<char>>(before + after),
    decreases before.len(),
{
    let ws = before + seq![escape_word()] + after;
    if before.len() == 0 {
        assert(ws[0] == escape_word());
        assert(ws.drop_first() =~= after);
        assert(before + after =~= after);
    } else {
        let rest = before.drop_first();
        assert forall|i: int| 0 <= i < rest.len() implies !is_option_word(#[trigger] rest[i]) && rest[i] != escape_word() by {
            assert(rest[i] == before[i + 1]);
        }
        lemma_escape_makes_values(rest, after);
        assert(ws[0] == before[0]);
        assert(ws.drop_first() =~= rest + seq![escape_word()] + after);
        assert(seq![before[0]] + (rest + after) =~= before + after);
    }
}

/// Why a line is no command.
pub enum CommandFault {
    MissingSubcommand,
    UnknownSubcommand(Seq<char>),
    UnexpectedArgument(Seq<char>),
    WrongArgumentCount(nat),
}

/// The values of the backtest command that the words of a line name, or why
/// they name none.
pub open spec fn command_values(words: Seq<Seq<char>>) -> Result<Seq<Seq<char>>, CommandFault> {
    if words.len() == 0 {
        Err(CommandFault::MissingSubcommand)
    } else if words[0] != backtest_word() {
        Err(CommandFault::UnknownSubcommand(words[0]))
    } else {
        match positional_words(words.drop_first()) {
            Err(w) => Err(CommandFault::UnexpectedArgument(w)),
            Ok(values) => if values.len() != BACKTEST_ARGUMENT_COUNT {
                Err(CommandFault::WrongArgumentCount(values.len()))
            } else {
                Ok(values)
            },
        }
    }
}

/// Why a line is no command.
#[derive(Debug)]
pub enum CommandError {
    /// The line names no command.
    MissingSubcommand,
    /// The first word names no known command.
    UnknownSubcommand(String),
    /// A word reads as an option that the command does not take.
    UnexpectedArgument(String),
    /// The command takes another number of values.
    WrongArgumentCount(usize),
}

impl View for CommandError {
    type V = CommandFault;

    open spec fn view(&self) -> CommandFault {
        match self {
            CommandError::MissingSubcommand => CommandFault::MissingSubcommand,
            CommandError::UnknownSubcommand(w) => CommandFault::UnknownSubcommand(w@),
            CommandError::UnexpectedArgument(w) => CommandFault::UnexpectedArgument(w@),
            CommandError::WrongArgumentCount(n) => CommandFault::WrongArgumentCount(*n as nat),
        }
    }
}

/// The commands of the interactive shell.
#[derive(Debug)]
pub enum Commands {
    Backtest {
        mev_commission_score: String,
        commission_score: String,
        historical_commission_score: String,
        blacklisted_score: String,
        superminority_score: String,
        delinquency_score: String,
        running_jito_score: String,
        yield_score: String,
        merkle_root_upload_authority_score: String,
        priority_fee_commission_score: String,
        target_epoch: String,
    },
}

impl Commands {
    /// The values of the command, in the order the line gives them.
    pub open spec fn values(self) -> Seq<Seq<char>> {
        match self {
            Commands::Backtest {
                mev_commission_score,
                commission_score,
                historical_commission_score,
                blacklisted_score,
                superminority_score,
                delinquency_score,
                running_jito_score,
                yield_score,
                merkle_root_upload_authority_score,
                priority_fee_commission_score,
                target_epoch,
            } => seq![
                mev_commission_score@,
                commission_score@,
                historical_commission_score@,
                blacklisted_score@,
                superminority_score@,
                delinquency_score@,
                running_jito_score@,
                yield_score@,
                merkle_root_upload_authority_score@,
                priority_fee_commission_score@,
                target_epoch@,
            ],
        }
    }
}

fn is_option(w: &str) -> (r: bool)
    ensures
        r == is_option_word(w@),
{
    w.unicode_len() > 1 && w.get_char(0) == '-'
}

proof fn lemma_positional_step(ws: Seq<Seq<char>>, i: int)
    requires
        0 <= i < ws.len(),
    ensures
        ws.skip(i).len() > 0,
        ws.skip(i)[0] == ws[i],
        ws.skip(i).drop_first() == ws.skip(i + 1),
{
    assert(ws.skip(i).drop_first() =~= ws.skip(i + 1));
}

/// The values among `words[1..]`, as `positional_words` reads them.
fn positional_values(words: &Vec<String>) -> (r: Result<Vec<String>, String>)
    requires
        words.len() >= 1,
    ensures
        match r {
            Ok(v) => positional_words(words.deep_view().drop_first()) == Ok::<Seq<Seq<char>>, Seq<char>>(v.deep_view()),
            Err(w) => positional_words(words.deep_view().drop_first()) == Err::<Seq<Seq<char>>, Seq<char>>(w@),
        },
{
    let ghost ws = words.deep_view();
    let n = words.len();
    let mut values: Vec<String> = Vec::new();
    let mut i: usize = 1;
    assert(ws.drop_first() =~= ws.skip(1));
    while i < n
        invariant
            ws == words.deep_view(),
            n == ws.len(),
            1 <= i <= n,
            positional_words(ws.skip(1)) == (match positional_words(ws.skip(i as int)) {
                Ok(rest) => Ok::<Seq<Seq<char>>, Seq<char>>(values.deep_view() + rest),
                Err(w) => Err::<Seq<Seq<char>>, Seq<char>>(w),
            }),
        decreases n - i,
    {
        proof {
            lemma_positional_step(ws, i as int);
        }
        let w = words[i].as_str();
        assert(w@ == ws[i as int]);
        if same_text(w, "--") {
            proof {
                reveal_strlit("--");
                assert(ws[i as int] =~= escape_word());
            }
            let mut j: usize = i + 1;
            while j < n
                invariant
                    ws == words.deep_view(),
                    n == ws.len(),
                    i + 1 <= j <= n,
                    positional_words(ws.skip(1)) == Ok::<Seq<Seq<char>>, Seq<char>>(values.deep_view() + ws.skip(j as int)),
                decreases n - j,
            {
                proof {
                    lemma_positional_step(ws, j as int);
                }
                let ghost before = values.deep_view();
                values.push(words[j].clone());
                assert(values.deep_view() =~= before.push(ws[j as int]));
                assert(before + ws.skip(j as int) =~= values.deep_view() + ws.skip(j + 1));
                j = j + 1;
            }
            assert(ws.skip(n as int) =~= Seq::<Seq<char>>::empty());
            assert(values.deep_view() + ws.skip(n as int) =~= values.deep_view());
            return Ok(values);
        }
        proof {
            reveal_strlit("--");
            assert("--"@ =~= escape_word());
            assert(ws[i as int] != escape_word());
        }
        if is_option(w) {
            let bad = words[i].clone();
            assert(positional_words(ws.skip(i as int)) == Err::<Seq<Seq<char>>, Seq<char>>(ws[i as int]));
            return Err(bad);
        }
        let ghost before = values.deep_view();
        values.push(words[i].clone());
        assert(values.deep_view() =~= before.push(ws[i as int]));
        proof {
            match positional_words(ws.skip(i + 1)) {
                Ok(rest) => {
                    assert(before + (seq![ws[i as int]] + rest) =~= values.deep_view() + rest);
                },
                Err(_) => {},
            }
        }
        i = i + 1;
    }
    assert(ws.skip(n as int) =~= Seq::<Seq<char>>::empty());
    assert(values.deep_view() + Seq::<Seq<char>>::empty() =~= values.deep_view());
    Ok(values)
}

/// Reads the words of a line as a command of the shell: `backtest`
/// followed by its eleven values (an option-like word is refused before a
/// `--`, taken as a value after it).
pub fn parse_command(words: &Vec<String>) -> (r: Result<Commands, CommandError>)
    ensures
        match r {
            Ok(c) => command_values(words.deep_view()) == Ok::<Seq<Seq<char>>, CommandFault>(c.values()),
            Err(e) => command_values(words.deep_view()) == Err::<Seq<Seq<char>>, CommandFault>(e@),
        },
{
    let ghost ws = words.deep_view();
    if words.len() == 0 {
        return Err(CommandError::MissingSubcommand);
    }
    proof {
        reveal_strlit("backtest");
        assert("backtest"@ =~= backtest_word());
    }
    assert(words[0]@ == ws[0]);
    if !same_text(words[0].as_str(), "backtest") {
        return Err(CommandError::UnknownSubcommand(words[0].clone()));
    }
    match positional_values(words) {
        Err(w) => Err(CommandError::UnexpectedArgument(w)),
        Ok(values) => {
            if values.len() != BACKTEST_ARGUMENT_COUNT {
                Err(CommandError::WrongArgumentCount(values.len()))
            } else {
                let ghost vs = values.deep_view();
                let c = Commands::Backtest {
                    mev_commission_score: values[0].clone(),
                    commission_score: values[1].clone(),
                    historical_commission_score: values[2].clone(),
                    blacklisted_score: values[3].clone(),
                    superminority_score: values[4].clone(),
                    delinquency_score: values[5].clone(),
                    running_jito_score: values[6].clone(),
                    yield_score: values[7].clone(),
                    merkle_root_upload_authority_score: values[8].clone(),
                    priority_fee_commission_score: values[9].clone(),
                    target_epoch: values[10].clone(),
                };
                assert(c.values() =~= vs);
                Ok(c)
            }
        },
    }
}

/// What the shell does with a line that it has read.
#[derive(Debug)]
pub enum CliAction {
    /// Run the backtest from `target_epoch`.
    Backtest { target_epoch: String },
    /// The line is no command; say so and read the next line.
    InvalidCommand(CommandError),
    /// The line's quoting is broken.
    InvalidQuoting,
}

/// The interactive shell.
pub struct CLI {}

impl CLI {
    /// A new shell.
    pub fn new() -> Self {
        CLI {}
    }

    /// Decides what to do with a line read from the user: the line is
    /// trimmed, split into words as a shell would, and read as a command.
    pub fn handle_line(&mut self, line: &str) -> (action: CliAction)
        ensures
            match shell_words(trimmed(line@)) {
                None => action is InvalidQuoting,
                Some(ws) => match command_values(ws) {
                    Ok(values) => action matches CliAction::Backtest { target_epoch }
                        && target_epoch@ == values[10],
                    Err(fault) => action matches CliAction::InvalidCommand(e) && e@ == fault,
                },
            },
    {
        let line = trim(line);
        match split_shell_words(line) {
            None => CliAction::InvalidQuoting,
            Some(words) => match parse_command(&words) {
                Ok(Commands::Backtest { target_epoch, .. }) => CliAction::Backtest { target_epoch },
                Err(e) => CliAction::InvalidCommand(e),
            },
        }
    }
}

} // verus!
