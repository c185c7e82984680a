//! Files that survive an interrupted update.
//!
//! A settings file is replaced by renaming, and a copy is kept aside until the
//! new file is in place. What is read back falls back to that copy.

use vstd::prelude::*;

use crate::error::{IoError, IoErrorKind};

verus! {

/// How reading a file ended.
#[derive(Debug)]
pub enum ReadOutcome {
    Contents(String),
    Missing,
    Failed(String),
}

/// Where the settings come from.
#[derive(Debug)]
pub enum SettingsSource {
    Parse(String),
    ReadBackup,
    Defaults,
    Fail(String),
}

/// What follows the attempt to read the settings, or their backup: the backup
/// stands in for settings that are missing, and defaults for both.
pub fn after_read(outcome: ReadOutcome, backup: bool) -> (source: SettingsSource)
    ensures
        match outcome {
            ReadOutcome::Contents(contents) => source matches SettingsSource::Parse(c)
                && c == contents,
            ReadOutcome::Missing => if backup {
                source is Defaults
            } else {
                source is ReadBackup
            },
            ReadOutcome::Failed(detail) => source matches SettingsSource::Fail(d) && d == detail,
        },
{
    match outcome {
        ReadOutcome::Contents(contents) => SettingsSource::Parse(contents),
        ReadOutcome::Missing => if backup {
            SettingsSource::Defaults
        } else {
            SettingsSource::ReadBackup
        },
        ReadOutcome::Failed(detail) => SettingsSource::Fail(detail),
    }
}

/// The steps that put a new file in the place of another.
#[derive(Clone, Copy, Debug, PartialEq, Eq, Structural)]
pub enum ReplaceStep {
    /// Rename the new file to the destination, where nothing is.
    Place,
    /// Remove a copy that an earlier replacement left.
    RemoveBackup,
    /// Rename the destination to the copy.
    MoveAside,
    /// Rename the new file to the destination.
    PlaceOver,
    /// Remove the copy.
    DiscardBackup,
    /// Rename the copy back to the destination.
    RestoreBackup,
}

/// What follows a step.
#[derive(Clone, Copy, Debug, PartialEq, Eq, Structural)]
pub enum AfterReplace {
    Go(ReplaceStep),
    Succeeded,
    /// The replacement failed, with the error of the step that could not be
    /// done.
    Failed,
}

/// The step that a replacement begins with.
pub fn first_replace_step(destination_exists: bool, backup_exists: bool) -> (step: ReplaceStep)
    ensures
        !destination_exists ==> step is Place,
        destination_exists && backup_exists ==> step is RemoveBackup,
        destination_exists && !backup_exists ==> step is MoveAside,
{
    if !destination_exists {
        ReplaceStep::Place
    } else if backup_exists {
        ReplaceStep::RemoveBackup
    } else {
        ReplaceStep::MoveAside
    }
}

pub open spec fn next_replace(step: ReplaceStep, done: bool) -> AfterReplace {
    match step {
        ReplaceStep::Place => if done {
            AfterReplace::Succeeded
        } else {
            AfterReplace::Failed
        },
        ReplaceStep::RemoveBackup => if done {
            AfterReplace::Go(ReplaceStep::MoveAside)
        } else {
            AfterReplace::Failed
        },
        ReplaceStep::MoveAside => if done {
            AfterReplace::Go(ReplaceStep::PlaceOver)
        } else {
            AfterReplace::Failed
        },
        ReplaceStep::PlaceOver => if done {
            AfterReplace::Go(ReplaceStep::DiscardBackup)
        } else {
            AfterReplace::Go(ReplaceStep::RestoreBackup)
        },
        ReplaceStep::DiscardBackup => AfterReplace::Succeeded,
        ReplaceStep::RestoreBackup => AfterReplace::Failed,
    }
}

/// What follows `step`, `done` telling whether it could be done.
pub fn after_replace_step(step: ReplaceStep, done: bool) -> (next: AfterReplace)
    ensures
        next == next_replace(step, done),
{
    match step {
        ReplaceStep::Place => if done {
            AfterReplace::Succeeded
        } else {
            AfterReplace::Failed
        },
        ReplaceStep::RemoveBackup => if done {
            AfterReplace::Go(ReplaceStep::MoveAside)
        } else {
            AfterReplace::Failed
        },
        ReplaceStep::MoveAside => if done {
            AfterReplace::Go(ReplaceStep::PlaceOver)
        } else {
            AfterReplace::Failed
        },
        ReplaceStep::PlaceOver => if done {
            AfterReplace::Go(ReplaceStep::DiscardBackup)
        } else {
            AfterReplace::Go(ReplaceStep::RestoreBackup)
        },
        ReplaceStep::DiscardBackup => AfterReplace::Succeeded,
        ReplaceStep::RestoreBackup => AfterReplace::Failed,
    }
}

/// Which of the two files are there.
pub struct Files {
    pub destination: bool,
    pub backup: bool,
}

/// The files after a step: a step that could not be done changes nothing.
pub open spec fn files_after(files: Files, step: ReplaceStep, done: bool) -> Files {
    if !done {
        files
    } else {
        match step {
            ReplaceStep::Place => Files { destination: true, ..files },
            ReplaceStep::RemoveBackup => Files { backup: false, ..files },
            ReplaceStep::MoveAside => Files { destination: false, backup: true },
            ReplaceStep::PlaceOver => Files { destination: true, ..files },
            ReplaceStep::DiscardBackup => Files { backup: false, ..files },
            ReplaceStep::RestoreBackup => Files { destination: true, backup: false },
        }
    }
}

/// The files as they are when a step is taken.
pub open spec fn ready_for(files: Files, step: ReplaceStep) -> bool {
    match step {
        ReplaceStep::Place => true,
        ReplaceStep::RemoveBackup => files.destination,
        ReplaceStep::MoveAside => files.destination,
        ReplaceStep::PlaceOver => files.backup && !files.destination,
        ReplaceStep::DiscardBackup => files.destination && files.backup,
        ReplaceStep::RestoreBackup => files.backup && !files.destination,
    }
}

/// At every moment of a replacement the settings can be read: where there were
/// settings, there is the file or its copy after every step, whether or not
/// the step could be done.
pub proof fn a_replacement_never_loses_the_settings(files: Files, step: ReplaceStep, done: bool)
    requires
        ready_for(files, step),
        files.destination || files.backup,
    ensures
        ({
            let now = files_after(files, step, done);
            &&& now.destination || now.backup
            &&& next_replace(step, done) matches AfterReplace::Go(next) ==> ready_for(now, next)
            &&& next_replace(step, done) is Succeeded ==> now.destination
        }),
{
}

/// Removing a file that is not there is no failure.
pub fn after_removal(result: Result<(), IoError>) -> (outcome: Result<(), IoError>)
    ensures
        match result {
            Ok(_) => outcome is Ok,
            Err(error) => if error.kind is NotFound {
                outcome is Ok
            } else {
                outcome matches Err(e) && e == error
            },
        },
{
    match result {
        Ok(_) => Ok(()),
        Err(error) => match error.kind {
            IoErrorKind::NotFound => Ok(()),
            _ => Err(error),
        },
    }
}

/// A replacement over settings that are there moves them aside, puts the new
/// file in place and then discards the copy, or moves the copy back where the
/// new file could not be put in place.
pub proof fn a_replacement_runs_through_its_steps()
    ensures
        next_replace(ReplaceStep::RemoveBackup, true) == AfterReplace::Go(ReplaceStep::MoveAside),
        next_replace(ReplaceStep::MoveAside, true) == AfterReplace::Go(ReplaceStep::PlaceOver),
        next_replace(ReplaceStep::PlaceOver, true) == AfterReplace::Go(ReplaceStep::DiscardBackup),
        next_replace(ReplaceStep::PlaceOver, false) == AfterReplace::Go(
            ReplaceStep::RestoreBackup,
        ),
        forall|done: bool|
            next_replace(ReplaceStep::DiscardBackup, done) == AfterReplace::Succeeded,
        forall|done: bool| next_replace(ReplaceStep::RestoreBackup, done) == AfterReplace::Failed,
        next_replace(ReplaceStep::Place, true) == AfterReplace::Succeeded,
        next_replace(ReplaceStep::Place, false) == AfterReplace::Failed,
        next_replace(ReplaceStep::RemoveBackup, false) == AfterReplace::Failed,
        next_replace(ReplaceStep::MoveAside, false) == AfterReplace::Failed,
{
}

/// Settings that are there are read, those that are missing are looked for in
/// the copy, and only where both are missing defaults stand in for them.
pub proof fn defaults_stand_in_only_for_missing_settings(
    outcome: ReadOutcome,
    backup: bool,
    source: SettingsSource,
)
    requires
        call_ensures(after_read, (outcome, backup), source),
    ensures
        source is Defaults <==> outcome is Missing && backup,
        source is ReadBackup <==> outcome is Missing && !backup,
        source is Parse <==> outcome is Contents,
        source is Fail <==> outcome is Failed,
{
}

} // verus!
