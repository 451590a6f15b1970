//! What the tool is asked to do.

use vstd::prelude::*;

verus! {

/// The arguments of one run of the tool.
#[derive(Debug, Clone, PartialEq, Eq)]
pub struct ListSubmitArgs {
    /// The project to work with: the name of a directory that holds a
    /// project's settings.
    pub project: Option<String>,
    pub subcommand: Option<ListSubmitCommand>,
}

/// What to do with the project.
#[derive(Debug, Clone, PartialEq, Eq)]
pub enum ListSubmitCommand {
    /// List more files.
    Add(AddCommand),
    /// Choose which of the listed files to keep.
    Files,
    /// Upload the listed files.
    Submit,
    /// Ask for the account anew.
    Auth,
    /// Drop the listed files that are gone.
    Clean,
    /// Replace the tool by its newest release.
    Update,
}

/// The files to list. None, or one directory, means that the files are
/// chosen from a menu.
#[derive(Debug, Clone, PartialEq, Eq)]
pub struct AddCommand {
    pub files: Vec<String>,
}

/// Where the account for a login comes from.
#[derive(Debug, Clone, Copy, PartialEq, Eq)]
pub enum AccountSource {
    /// The stored account is used.
    Stored,
    /// The student is asked.
    Asked,
}

/// What becomes of an account after a login with it has succeeded.
#[derive(Debug, Clone, Copy, PartialEq, Eq)]
pub enum AccountKeeping {
    /// It is stored.
    Store,
    /// The student is asked whether to store it.
    Offer,
    /// Nothing is stored.
    Leave,
}

impl ListSubmitArgs {
    /// Where the account for the next login comes from. The student is
    /// asked where no account is stored, where the command is `Auth`, and
    /// after a login that was refused.
    pub fn account_source(&self, stored: bool, refused: bool) -> (source: AccountSource)
        ensures
            source == if !stored || (self.subcommand matches Some(command) && command is Auth)
                || refused {
                AccountSource::Asked
            } else {
                AccountSource::Stored
            },
    {
        if !stored || self.asks_for_account() || refused {
            AccountSource::Asked
        } else {
            AccountSource::Stored
        }
    }

    /// What becomes of the account after a login has succeeded. It is
    /// stored where the command is `Auth`; else the student is offered to
    /// store it where none was stored before.
    pub fn account_keeping(&self, stored: bool) -> (keeping: AccountKeeping)
        ensures
            keeping == if self.subcommand matches Some(command) && command is Auth {
                AccountKeeping::Store
            } else if !stored {
                AccountKeeping::Offer
            } else {
                AccountKeeping::Leave
            },
    {
        if self.asks_for_account() {
            AccountKeeping::Store
        } else if !stored {
            AccountKeeping::Offer
        } else {
            AccountKeeping::Leave
        }
    }


    /// Whether the command is `Update`.
    pub open spec fn is_update(self) -> bool {
        self.subcommand matches Some(command) && command is Update
    }

    /// Whether the run is asked to replace the tool by its newest release.
    pub fn wants_update(&self) -> (update: bool)
        ensures
            update == self.is_update(),
    {
        match &self.subcommand {
            Some(ListSubmitCommand::Update) => true,
            _ => false,
        }
    }

    /// Whether the account is asked for although one is stored: where the
    /// command is `Auth`.
    pub fn asks_for_account(&self) -> (asks: bool)
        ensures
            asks == (self.subcommand matches Some(command) && command is Auth),
    {
        match &self.subcommand {
            Some(ListSubmitCommand::Auth) => true,
            _ => false,
        }
    }
}

} // verus!
