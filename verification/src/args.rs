//! What the command line asks for.
//!
//! The arguments arrive here already split into fields. This module decides
//! what they mean: the mode to run in, the expressions to work on, how
//! often each is rolled, and the names of the files of a profile.

use crate::integer::{characters, read_unsigned};
use crate::text::push_char;
use std::path::{Path, PathBuf};
use vstd::prelude::*;
use vstd::string::{StrSliceExecFns, StringExecFns};

verus! {

#[verifier::external_type_specification]
#[verifier::external_body]
pub struct ExPathBuf(PathBuf);

#[verifier::external_type_specification]
#[verifier::external_body]
pub struct ExPath(Path);

/// The path that a path buffer holds.
pub uninterp spec fn path_in(buffer: PathBuf) -> &'static Path;

/// `PathBuf::as_path`: borrows the path that the buffer holds.
pub assume_specification[ PathBuf::as_path ](buffer: &PathBuf) -> (path: &Path)
    ensures
        path == path_in(*buffer),
;

/// The arguments of the command line.
#[derive(Clone, Debug)]
pub struct Args {
    /// The expressions to roll, or the aliases that stand for some.
    pub expressions: Vec<String>,
    /// Whether averages are shown in place of rolls.
    pub show_average: bool,
    /// The profile whose aliases are used, if not the default one.
    pub config: Option<String>,
    /// What to do in place of rolling.
    pub subcmd: Option<SubCommand>,
    /// Whether each roll is shown with its expression.
    pub verbose: bool,
}

/// What to do in place of rolling.
#[derive(Clone, Debug)]
pub enum SubCommand {
    /// Store an alias.
    AddAlias(AddAlias),
    /// Remove an alias.
    RemAlias(RemAlias),
    /// List the aliases.
    List,
}

/// Store a set of expressions with an alias for easy reuse.
#[derive(Clone, Debug)]
pub struct AddAlias {
    /// An easily remembered name for a set of expressions.
    pub alias: String,
    /// A comment on the stored expressions.
    pub comment: Option<String>,
    /// The expressions to roll when the alias is given.
    pub candidate_expressions: Vec<String>,
}

/// Remove a previously stored alias.
#[derive(Clone, Debug)]
pub struct RemAlias {
    /// The alias to remove.
    pub alias: String,
}

/// The mode to run in.
#[derive(Copy, Clone, Debug)]
pub enum Mode<'a> {
    /// Roll the expressions.
    Norm,
    /// Show the average of each expression.
    Average,
    /// Store an alias.
    Add(&'a AddAlias),
    /// Remove the alias of this name.
    Rem(&'a str),
    /// List the aliases.
    List,
}

/// The name of the file that holds the aliases of the default profile. The
/// file of another profile has the profile's name behind it, after a dot.
pub const CONFIG_BASE: &'static str = ".roll";

/// The name of the file that the history of rolls is appended to.
pub const HISTORY: &'static str = ".roll.history";

/// Whether `c` is an ASCII letter.
pub open spec fn is_letter(c: char) -> bool {
    ('a' <= c && c <= 'z') || ('A' <= c && c <= 'Z')
}

/// The lower-case form of `c` if it is an ASCII capital, else `c` itself.
pub open spec fn lowered(c: char) -> char {
    if 'A' <= c && c <= 'Z' {
        (c as int + 32) as char
    } else {
        c
    }
}

/// The first position at or after `from` that holds a letter, or the length
/// of `text` if none does.
pub open spec fn letters_from(text: Seq<char>, from: int) -> int
    decreases text.len() - from,
{
    if from >= text.len() {
        text.len() as int
    } else if 0 <= from && is_letter(text[from]) {
        from
    } else {
        letters_from(text, from + 1)
    }
}

/// The position behind the last letter before `to`, or zero if no letter
/// stands before `to`.
pub open spec fn letters_to(text: Seq<char>, to: int) -> int
    decreases to,
{
    if to <= 0 {
        0
    } else if to <= text.len() && is_letter(text[to - 1]) {
        to
    } else {
        letters_to(text, to - 1)
    }
}

/// The name of a profile as it enters a file name: what is left of `text`
/// when everything before its first and behind its last letter is cut off,
/// in lower case.
pub open spec fn profile_name(text: Seq<char>) -> Seq<char> {
    let from = letters_from(text, 0);
    let to = letters_to(text, text.len() as int);
    if from >= to {
        Seq::empty()
    } else {
        text.subrange(from, to).map_values(|c: char| lowered(c))
    }
}

/// The name of the file that holds the aliases of the given profile.
pub open spec fn config_file(profile: Option<Seq<char>>) -> Seq<char> {
    match profile {
        Some(profile) => CONFIG_BASE@ + seq!['.'] + profile_name(profile),
        None => CONFIG_BASE@,
    }
}

/// Whether `c` separates an expression from the number of times it is
/// rolled.
pub open spec fn is_times(c: char) -> bool {
    c == '*' || c == 'x' || c == 'X'
}

/// The first position at or after `from` that holds a times sign, or the
/// length of `text` if none does.
pub open spec fn times_from(text: Seq<char>, from: int) -> int
    decreases text.len() - from,
{
    if from >= text.len() {
        text.len() as int
    } else if 0 <= from && is_times(text[from]) {
        from
    } else {
        times_from(text, from + 1)
    }
}

/// A candidate split at its first times sign: how often to roll, and what.
/// Without a times sign, or with no number behind it, that is once.
pub open spec fn counted(candidate: Seq<char>) -> (int, Seq<char>) {
    let at = times_from(candidate, 0);
    if at >= candidate.len() {
        (1, candidate)
    } else {
        (
            match crate::integer::unsigned(candidate.skip(at + 1)) {
                Ok(count) => count,
                Err(_) => 1,
            },
            candidate.take(at),
        )
    }
}

impl Args {
    /// The expressions that the command works on: those of the alias to
    /// store, else those to roll; none where an alias is removed or the
    /// aliases are listed.
    pub open spec fn asked(&self) -> Seq<String> {
        match self.subcmd {
            None => self.expressions@,
            Some(SubCommand::AddAlias(add)) => add.candidate_expressions@,
            Some(SubCommand::RemAlias(_)) => Seq::empty(),
            Some(SubCommand::List) => Seq::empty(),
        }
    }

    /// The expressions that the command works on.
    pub fn candidates(&self) -> (candidates: Vec<&str>)
        ensures
            candidates.len() == self.asked().len(),
            forall|i: int| 0 <= i < candidates.len() ==> (#[trigger] candidates[i])@ == self.asked()[i]@,
    {
        match &self.subcmd {
            None => borrowed(&self.expressions),
            Some(SubCommand::AddAlias(add)) => borrowed(&add.candidate_expressions),
            Some(SubCommand::RemAlias(_)) => Vec::new(),
            Some(SubCommand::List) => Vec::new(),
        }
    }

    /// The mode to run in: what the subcommand says, else averages if they
    /// are asked for, else rolls.
    pub fn mode(&self) -> (mode: Mode<'_>)
        ensures
            match self.subcmd {
                None => mode == if self.show_average {
                    Mode::Average
                } else {
                    Mode::Norm
                },
                Some(SubCommand::AddAlias(add)) => mode == Mode::Add(&add),
                Some(SubCommand::RemAlias(rem)) => mode matches Mode::Rem(alias) && alias@
                    == rem.alias@,
                Some(SubCommand::List) => mode == Mode::List,
            },
    {
        match &self.subcmd {
            None => {
                if self.show_average {
                    Mode::Average
                } else {
                    Mode::Norm
                }
            },
            Some(SubCommand::AddAlias(add)) => Mode::Add(add),
            Some(SubCommand::RemAlias(rem)) => Mode::Rem(rem.alias.as_str()),
            Some(SubCommand::List) => Mode::List,
        }
    }

    /// The name of the file that holds the aliases of the profile asked
    /// for.
    pub fn config_file_name(&self) -> (name: String)
        ensures
            name@ == config_file(
                match self.config {
                    Some(profile) => Some(profile@),
                    None => None,
                },
            ),
    {
        profile_file_name(&self.config)
    }
}

/// The texts of `source`, borrowed, in the same order.
pub fn borrowed(source: &Vec<String>) -> (texts: Vec<&str>)
    ensures
        texts.len() == source.len(),
        forall|i: int| 0 <= i < texts.len() ==> (#[trigger] texts[i])@ == source[i]@,
{
    let mut texts: Vec<&str> = Vec::new();
    let mut at: usize = 0;
    while at < source.len()
        invariant
            at <= source.len(),
            texts.len() == at,
            forall|i: int| 0 <= i < at ==> (#[trigger] texts[i])@ == source[i]@,
        decreases source.len() - at,
    {
        texts.push(source[at].as_str());
        at = at + 1;
    }
    texts
}

/// The name of the file that holds the aliases of the given profile.
pub fn profile_file_name(profile: &Option<String>) -> (name: String)
    ensures
        name@ == config_file(
            match *profile {
                Some(profile) => Some(profile@),
                None => None,
            },
        ),
{
    let mut name = String::from_str(CONFIG_BASE);
    match profile {
        None => {},
        Some(profile) => {
            push_char(&mut name, '.');
            append_profile_name(&mut name, profile.as_str());
        },
    }
    name
}

/// Whether `c` is an ASCII letter.
fn is_letter_char(c: char) -> (letter: bool)
    ensures
        letter == is_letter(c),
{
    ('a' <= c && c <= 'z') || ('A' <= c && c <= 'Z')
}

/// The lower-case form of `c`.
fn lower(c: char) -> (low: char)
    ensures
        low == lowered(c),
{
    if 'A' <= c && c <= 'Z' {
        ((c as u8) + 32) as char
    } else {
        c
    }
}

/// Appends the name of the profile `profile` as it enters a file name.
fn append_profile_name(name: &mut String, profile: &str)
    ensures
        final(name)@ == old(name)@ + profile_name(profile@),
{
    let chars = characters(profile);
    let mut from: usize = 0;
    while from < chars.len() && !is_letter_char(chars[from])
        invariant
            from <= chars.len(),
            letters_from(chars@, 0) == letters_from(chars@, from as int),
        decreases chars.len() - from,
    {
        from = from + 1;
    }
    let mut to: usize = chars.len();
    while to > 0 && !is_letter_char(chars[to - 1])
        invariant
            to <= chars.len(),
            letters_to(chars@, chars@.len() as int) == letters_to(chars@, to as int),
        decreases to,
    {
        to = to - 1;
    }
    if from >= to {
        assert(old(name)@ + Seq::<char>::empty() =~= old(name)@);
        return ;
    }
    let ghost cut = chars@.subrange(from as int, to as int);
    let mut at: usize = from;
    while at < to
        invariant
            from <= at <= to <= chars.len(),
            cut == chars@.subrange(from as int, to as int),
            name@ == old(name)@ + cut.take(at - from).map_values(|c: char| lowered(c)),
        decreases to - at,
    {
        push_char(name, lower(chars[at]));
        proof {
            assert(cut.take(at - from + 1).map_values(|c: char| lowered(c)) =~= cut.take(
                at - from,
            ).map_values(|c: char| lowered(c)).push(lowered(chars@[at as int])));
        }
        at = at + 1;
    }
    assert(cut.take(to - from) =~= cut);
}

/// Splits `candidate` at its first times sign: how often to roll, and
/// what.
pub fn count_expression(candidate: &str) -> (split: (usize, &str))
    ensures
        split.0 == counted(candidate@).0,
        split.1@ == counted(candidate@).1,
{
    let chars = characters(candidate);
    let mut at: usize = 0;
    while at < chars.len() && !(chars[at] == '*' || chars[at] == 'x' || chars[at] == 'X')
        invariant
            at <= chars.len(),
            times_from(chars@, 0) == times_from(chars@, at as int),
        decreases chars.len() - at,
    {
        at = at + 1;
    }
    if at >= chars.len() {
        return (1, candidate);
    }
    assert(chars@.skip(at + 1) =~= chars@.subrange(at + 1, chars@.len() as int));
    let count: usize = match read_unsigned(&chars, at + 1, chars.len()) {
        Ok(count) => count,
        Err(_) => 1,
    };
    (count, candidate.substring_char(0, at))
}

/// Splits each candidate at its first times sign: `2d6*3` stands for three
/// rolls of `2d6`.
pub fn expand_expressions<'a>(candidates: &Vec<&'a str>) -> (expanded: Vec<(usize, &'a str)>)
    ensures
        expanded.len() == candidates.len(),
        forall|i: int|
            0 <= i < expanded.len() ==> (#[trigger] expanded[i]).0 == counted(candidates[i]@).0
                && expanded[i].1@ == counted(candidates[i]@).1,
{
    let mut expanded: Vec<(usize, &'a str)> = Vec::new();
    let mut at: usize = 0;
    while at < candidates.len()
        invariant
            at <= candidates.len(),
            expanded.len() == at,
            forall|i: int|
                0 <= i < at ==> (#[trigger] expanded[i]).0 == counted(candidates[i]@).0
                    && expanded[i].1@ == counted(candidates[i]@).1,
        decreases candidates.len() - at,
    {
        expanded.push(count_expression(candidates[at]));
        at = at + 1;
    }
    expanded
}

/// Where the files of a profile are.
#[derive(Debug)]
pub struct PathConfig {
    config: PathBuf,
    history: PathBuf,
}

impl PathConfig {
    /// The buffer that holds the path of the aliases.
    pub closed spec fn config_buffer(&self) -> PathBuf {
        self.config
    }

    /// The buffer that holds the path of the history.
    pub closed spec fn history_buffer(&self) -> PathBuf {
        self.history
    }

    /// The files of a profile: `config` holds its aliases, and its rolls
    /// are appended to `history`.
    pub fn new(config: PathBuf, history: PathBuf) -> (paths: Self)
        ensures
            paths.config_buffer() == config,
            paths.history_buffer() == history,
    {
        PathConfig { config, history }
    }

    /// The file that holds the aliases.
    pub fn config(&self) -> (path: &Path)
        ensures
            path == path_in(self.config_buffer()),
    {
        self.config.as_path()
    }

    /// The file that the history of rolls is appended to.
    pub fn history(&self) -> (path: &Path)
        ensures
            path == path_in(self.history_buffer()),
    {
        self.history.as_path()
    }
}

} // verus!
