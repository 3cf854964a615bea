//! The command line in its short form.
//!
//! Here the averages have no mode of their own: whether they are shown in
//! place of rolls is a flag that the normal mode carries along.

use crate::args::{borrowed, config_file, profile_file_name, AddAlias, SubCommand};
use vstd::prelude::*;

verus! {

/// The options of the command line.
#[derive(Clone, Debug)]
pub struct Opts {
    /// The expressions to roll, or the aliases that stand for some.
    pub candidate_expressions: Vec<String>,
    /// Whether averages are shown in place of rolls.
    pub show_average: bool,
    /// The profile whose aliases are used, if not the default one.
    pub config: Option<String>,
    /// What to do in place of rolling.
    pub subcmd: Option<SubCommand>,
}

/// The mode to run in.
#[derive(Copy, Clone, Debug)]
pub enum Mode<'a> {
    /// Roll the expressions, or show their averages if the flag is set.
    Norm(bool),
    /// Store an alias.
    Add(&'a AddAlias),
    /// Remove the alias of this name.
    Rem(&'a str),
    /// List the aliases.
    List,
}

impl Opts {
    /// The expressions that the command works on: those of the alias to
    /// store, else those to roll; none where an alias is removed or the
    /// aliases are listed.
    pub open spec fn asked(&self) -> Seq<String> {
        match self.subcmd {
            None => self.candidate_expressions@,
            Some(SubCommand::AddAlias(add)) => add.candidate_expressions@,
            Some(SubCommand::RemAlias(_)) => Seq::empty(),
            Some(SubCommand::List) => Seq::empty(),
        }
    }

    /// The expressions that the command works on.
    pub fn candidates(&self) -> (candidates: Vec<&str>)
        ensures
            candidates.len() == self.asked().len(),
            forall|i: int| 0 <= i < candidates.len() ==> (#[trigger] candidates[i])@ == self.asked()[i]@,
    {
        match &self.subcmd {
            None => borrowed(&self.candidate_expressions),
            Some(SubCommand::AddAlias(add)) => borrowed(&add.candidate_expressions),
            Some(SubCommand::RemAlias(_)) => Vec::new(),
            Some(SubCommand::List) => Vec::new(),
        }
    }

    /// The mode to run in: what the subcommand says, else the normal mode
    /// with the flag for averages.
    pub fn mode(&self) -> (mode: Mode<'_>)
        ensures
            match self.subcmd {
                None => mode == Mode::Norm(self.show_average),
                Some(SubCommand::AddAlias(add)) => mode == Mode::Add(&add),
                Some(SubCommand::RemAlias(rem)) => mode matches Mode::Rem(alias) && alias@
                    == rem.alias@,
                Some(SubCommand::List) => mode == Mode::List,
            },
    {
        match &self.subcmd {
            None => Mode::Norm(self.show_average),
            Some(SubCommand::AddAlias(add)) => Mode::Add(add),
            Some(SubCommand::RemAlias(rem)) => Mode::Rem(rem.alias.as_str()),
            Some(SubCommand::List) => Mode::List,
        }
    }

    /// The name of the file that holds the aliases of the profile asked
    /// for.
    pub fn config_file_name(&self) -> (name: String)
        ensures
            name@ == config_file(
                match self.config {
                    Some(profile) => Some(profile@),
                    None => None,
                },
            ),
    {
        profile_file_name(&self.config)
    }
}

} // verus!
