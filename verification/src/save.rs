//! Where the save file lives and the questions asked before creating it.

use vstd::prelude::*;

verus! {

/// The save file's name inside the program's directory.
pub open spec fn save_file(dir: Seq<char>) -> Seq<char> {
    dir + "\\save.zip"@
}

/// The path of the save file in the directory `dir`.
pub fn save_path(dir: &str) -> (p: String)
    ensures
        p@ == save_file(dir@),
{
    let mut p = String::from_str(dir);
    p.append("\\save.zip");
    p
}

/// The save file to load: its path when the program's directory is known
/// and the file exists there, otherwise "Disabled".
pub fn load_data_path(dir: &str, dir_known: bool, exists: bool) -> (p: String)
    ensures
        dir_known && exists ==> p@ == save_file(dir@),
        !(dir_known && exists) ==> p@ == "Disabled"@,
{
    if dir_known && exists {
        save_path(dir)
    } else {
        String::from_str("Disabled")
    }
}

/// The answer to "create a save file?".
#[derive(Clone, Copy, Debug, PartialEq, Eq, Structural)]
pub enum Answer {
    Create,
    Cancel,
    Ask,
}

/// Y creates the save file, N cancels, any other key asks again.
pub fn wizard_answer(c: char) -> (a: Answer)
    ensures
        a == (if c == 'y' || c == 'Y' {
            Answer::Create
        } else if c == 'n' || c == 'N' {
            Answer::Cancel
        } else {
            Answer::Ask
        }),
{
    if c == 'y' || c == 'Y' {
        Answer::Create
    } else if c == 'n' || c == 'N' {
        Answer::Cancel
    } else {
        Answer::Ask
    }
}

/// What the program does after a key on the save-file question.
#[derive(Clone, Copy, Debug, PartialEq, Eq, Structural)]
pub enum WizardAction {
    /// Write an empty save file at the new path, then stop asking.
    Write,
    /// Stop asking.
    Stop,
    /// Ask again.
    Again,
}

/// The question "create a save file?", asked while no save file is known.
pub struct Wizard {
    pub save: String,
}

impl Wizard {
    /// Starts from the save file found at start-up (or "Disabled").
    pub fn new(save: String) -> (w: Wizard)
        ensures
            w.save@ == save@,
    {
        Wizard { save }
    }

    /// The question is asked while no save file is known.
    pub fn running(&self) -> (r: bool)
        ensures
            r == (self.save@ == "Disabled"@),
    {
        let disabled = String::from_str("Disabled");
        self.save == disabled
    }

    /// Handles a key (`None` when no character was read): Y makes the save
    /// file's path in `dir` the known save file and asks for it to be
    /// written; N stops asking; anything else asks again.
    pub fn step(&mut self, dir: &str, key: Option<char>) -> (a: WizardAction)
        ensures
            match key {
                Some(c) => if c == 'y' || c == 'Y' {
                    a == WizardAction::Write && final(self).save@ == save_file(dir@)
                } else if c == 'n' || c == 'N' {
                    a == WizardAction::Stop && final(self).save@ == old(self).save@
                } else {
                    a == WizardAction::Again && final(self).save@ == old(self).save@
                },
                None => a == WizardAction::Again && final(self).save@ == old(self).save@,
            },
    {
        match key {
            Some(c) => match wizard_answer(c) {
                Answer::Create => {
                    self.save = save_path(dir);
                    WizardAction::Write
                },
                Answer::Cancel => WizardAction::Stop,
                Answer::Ask => WizardAction::Again,
            },
            None => WizardAction::Again,
        }
    }
}

} // verus!
