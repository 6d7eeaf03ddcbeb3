//! Saving a cache, step by step: the directories, the text, the file, its content.

use vstd::prelude::*;

verus! {

/// What is done next while a cache is saved.
#[derive(Debug)]
pub enum SaveStep {
    /// Create the directories in which the cache file lies.
    CreateDirectories,
    /// Turn the cache into text.
    Serialize,
    /// Create the cache file, or empty it, for this text.
    CreateFile(String),
    /// Write this text to the cache file.
    Write(String),
    /// Nothing: the cache is saved.
    Saved,
}

/// What was done for a step.
#[derive(Debug)]
pub enum SaveEvent {
    /// The directories are there.
    DirectoriesCreated,
    /// The cache was turned into this text.
    Serialized(String),
    /// The cache file is there, and empty.
    FileCreated,
    /// The text was written.
    Written,
}

/// A step, with its text as a sequence of characters.
pub enum SaveStepView {
    CreateDirectories,
    Serialize,
    CreateFile(Seq<char>),
    Write(Seq<char>),
    Saved,
}

/// An event, with its text as a sequence of characters.
pub enum SaveEventView {
    DirectoriesCreated,
    Serialized(Seq<char>),
    FileCreated,
    Written,
}

impl View for SaveStep {
    type V = SaveStepView;

    open spec fn view(&self) -> SaveStepView {
        match self {
            SaveStep::CreateDirectories => SaveStepView::CreateDirectories,
            SaveStep::Serialize => SaveStepView::Serialize,
            SaveStep::CreateFile(contents) => SaveStepView::CreateFile(contents@),
            SaveStep::Write(contents) => SaveStepView::Write(contents@),
            SaveStep::Saved => SaveStepView::Saved,
        }
    }
}

impl View for SaveEvent {
    type V = SaveEventView;

    open spec fn view(&self) -> SaveEventView {
        match self {
            SaveEvent::DirectoriesCreated => SaveEventView::DirectoriesCreated,
            SaveEvent::Serialized(contents) => SaveEventView::Serialized(contents@),
            SaveEvent::FileCreated => SaveEventView::FileCreated,
            SaveEvent::Written => SaveEventView::Written,
        }
    }
}

impl SaveStepView {
    /// The step behind this one. An event that is not for this step changes nothing.
    pub open spec fn after(self, event: SaveEventView) -> SaveStepView {
        match (self, event) {
            (SaveStepView::CreateDirectories, SaveEventView::DirectoriesCreated) => {
                SaveStepView::Serialize
            },
            (SaveStepView::Serialize, SaveEventView::Serialized(contents)) => {
                SaveStepView::CreateFile(contents)
            },
            (SaveStepView::CreateFile(contents), SaveEventView::FileCreated) => {
                SaveStepView::Write(contents)
            },
            (SaveStepView::Write(_), SaveEventView::Written) => SaveStepView::Saved,
            (step, _) => step,
        }
    }
}

impl SaveStep {
    /// The first step.
    pub fn first() -> (step: SaveStep)
        ensures
            step@ == SaveStepView::CreateDirectories,
    {
        SaveStep::CreateDirectories
    }

    /// The next step, or the error with which this one failed.
    pub fn next<E>(self, outcome: Result<SaveEvent, E>) -> (step: Result<SaveStep, E>)
        ensures
            match outcome {
                Err(error) => step == Err::<SaveStep, E>(error),
                Ok(event) => step is Ok && step->Ok_0@ == self@.after(event@),
            },
    {
        match outcome {
            Err(error) => Err(error),
            Ok(event) => Ok(
                match (self, event) {
                    (SaveStep::CreateDirectories, SaveEvent::DirectoriesCreated) => {
                        SaveStep::Serialize
                    },
                    (SaveStep::Serialize, SaveEvent::Serialized(contents)) => {
                        SaveStep::CreateFile(contents)
                    },
                    (SaveStep::CreateFile(contents), SaveEvent::FileCreated) => {
                        SaveStep::Write(contents)
                    },
                    (SaveStep::Write(_), SaveEvent::Written) => SaveStep::Saved,
                    (step, _) => step,
                },
            ),
        }
    }
}

/// The step behind a sequence of events.
pub open spec fn step_after(events: Seq<SaveEventView>) -> SaveStepView
    decreases events.len(),
{
    if events.len() == 0 {
        SaveStepView::CreateDirectories
    } else {
        step_after(events.drop_last()).after(events.last())
    }
}

/// The cache file is created, and thereby emptied, only when there is a text to write
/// to it, and the text that is written is the one that the cache was turned into: a
/// cache that cannot be turned into text leaves the file as it was.
pub proof fn law_file_is_touched_only_with_contents(events: Seq<SaveEventView>)
    ensures
        step_after(events) matches SaveStepView::CreateFile(contents) ==> events.contains(
            SaveEventView::Serialized(contents),
        ),
        step_after(events) matches SaveStepView::Write(contents) ==> events.contains(
            SaveEventView::Serialized(contents),
        ),
    decreases events.len(),
{
    if events.len() > 0 {
        let earlier = events.drop_last();
        law_file_is_touched_only_with_contents(earlier);
        assert(events[events.len() - 1] == events.last());
        assert forall|event: SaveEventView| #[trigger] earlier.contains(event) implies events.contains(
            event,
        ) by {
            let i = choose|i: int| 0 <= i < earlier.len() && earlier[i] == event;
            assert(events[i] == event);
        }
    }
}

/// The four events, in their order, save the cache.
pub proof fn law_steps_lead_to_saved(contents: Seq<char>)
    ensures
        SaveStepView::CreateDirectories.after(SaveEventView::DirectoriesCreated).after(
            SaveEventView::Serialized(contents),
        ) == SaveStepView::CreateFile(contents),
        SaveStepView::CreateFile(contents).after(SaveEventView::FileCreated)
            == SaveStepView::Write(contents),
        SaveStepView::Write(contents).after(SaveEventView::Written) == SaveStepView::Saved,
{
}

} // verus!
