//! A renaming run, step by step.
//!
//! The run decides; the caller does the work on disk. The caller asks for the
//! next action, performs it, and reports how it went. Each report moves the run
//! on and yields the messages to pass along: one progress message for each
//! file copied, and one closing message, after which the run asks for nothing
//! more.

use vstd::prelude::*;
use crate::listing::{files_in_order, list_files_in_directory, texts};
use crate::message::{clone_all, events, Event, Message};
use crate::naming::{name_plan, new_name, rename_files_with_leading_zeros};
use crate::paths::{join_path, joined};
use crate::text::{strip_leading_dots, without_leading_dots};

verus! {

/// Where a run stands.
pub enum Phase {
    /// Waiting for the paths of the files under the input directory.
    Listing,
    /// Waiting for the output directory to be there.
    Creating,
    /// Waiting for the copy of the next file.
    Copying,
    /// Over: the closing message is out.
    Finished,
}

/// A run as the contracts see it.
pub struct Run {
    pub phase: Phase,
    pub input: Seq<char>,
    pub output: Seq<char>,
    pub extension: Seq<char>,
    pub padding_zeros: nat,
    pub include_original_name: bool,
    pub sources: Seq<Seq<char>>,
    pub targets: Seq<Seq<char>>,
    pub completed: nat,
}

/// What a run asks its caller to do next.
pub enum Action {
    /// Collect the paths of all regular files beneath this directory.
    ReadDirectory(String),
    /// Create this directory, with every ancestor that is missing.
    CreateDirectory(String),
    /// Copy the contents of the first file to the second path.
    CopyFile(String, String),
    /// Nothing: the run is over.
    Stop,
}

/// A renaming run.
pub struct Renaming {
    phase: Phase,
    input: String,
    output: String,
    extension: String,
    padding_zeros: usize,
    include_original_name: bool,
    sources: Vec<String>,
    targets: Vec<String>,
    completed: usize,
}

/// The message text of a run that found no file to rename.
pub open spec fn no_files_text() -> Seq<char> {
    "No files found to rename."@
}

/// Where the copies of `files` go: each under `output`, by the name that
/// its position gives it.
pub open spec fn destinations(
    files: Seq<Seq<char>>,
    output: Seq<char>,
    width: nat,
    include_original_name: bool,
) -> Seq<Seq<char>> {
    Seq::new(
        files.len(),
        |i: int| joined(output, new_name(files[i], (i + 1) as nat, width, include_original_name)),
    )
}

/// What was found under the input directory, or why it could not be read.
pub open spec fn found_view(found: Result<Vec<String>, String>) -> Result<
    Seq<Seq<char>>,
    Seq<char>,
> {
    match found {
        Ok(paths) => Ok(texts(paths@)),
        Err(e) => Err(e@),
    }
}

/// The error text of a failed piece of work, if it failed.
pub open spec fn failure_of(result: Result<(), String>) -> Option<Seq<char>> {
    match result {
        Ok(_) => None,
        Err(e) => Some(e@),
    }
}

impl Run {
    /// The files to copy and their destinations belong together.
    pub open spec fn planned(self) -> bool {
        &&& self.sources.len() > 0
        &&& self.targets == destinations(
            self.sources,
            self.output,
            self.padding_zeros,
            self.include_original_name,
        )
    }

    /// What holds of every run.
    pub open spec fn wf(self) -> bool {
        match self.phase {
            Phase::Listing => self.completed == 0,
            Phase::Creating => self.planned() && self.completed == 0,
            Phase::Copying => self.planned() && self.completed < self.sources.len(),
            Phase::Finished => true,
        }
    }

    /// The run after the listing came in.
    pub open spec fn after_listing(self, found: Result<Seq<Seq<char>>, Seq<char>>) -> Run {
        if !(self.phase is Listing) {
            self
        } else {
            match found {
                Err(_) => Run { phase: Phase::Finished, ..self },
                Ok(paths) => {
                    let files = files_in_order(paths, self.extension);
                    if files.len() == 0 {
                        Run { phase: Phase::Finished, ..self }
                    } else {
                        Run {
                            phase: Phase::Creating,
                            sources: files,
                            targets: destinations(
                                files,
                                self.output,
                                self.padding_zeros,
                                self.include_original_name,
                            ),
                            ..self
                        }
                    }
                },
            }
        }
    }

    /// What the run reports when the listing comes in.
    pub open spec fn listing_events(self, found: Result<Seq<Seq<char>>, Seq<char>>) -> Seq<
        Event,
    > {
        if !(self.phase is Listing) {
            Seq::empty()
        } else {
            match found {
                Err(e) => seq![Event::Failure(e)],
                Ok(paths) => if files_in_order(paths, self.extension).len() == 0 {
                    seq![Event::Failure(no_files_text())]
                } else {
                    Seq::empty()
                },
            }
        }
    }

    /// The run after the output directory was made, or could not be.
    pub open spec fn after_directory(self, failure: Option<Seq<char>>) -> Run {
        if !(self.phase is Creating) {
            self
        } else {
            match failure {
                Some(_) => Run { phase: Phase::Finished, ..self },
                None => Run { phase: Phase::Copying, ..self },
            }
        }
    }

    /// What the run reports when the output directory was made, or could not
    /// be.
    pub open spec fn directory_events(self, failure: Option<Seq<char>>) -> Seq<Event> {
        if !(self.phase is Creating) {
            Seq::empty()
        } else {
            match failure {
                Some(e) => seq![Event::Failure(e)],
                None => Seq::empty(),
            }
        }
    }

    /// The run after a copy was made, or could not be.
    pub open spec fn after_copy(self, failure: Option<Seq<char>>) -> Run {
        if !(self.phase is Copying) {
            self
        } else {
            match failure {
                Some(_) => Run { phase: Phase::Finished, ..self },
                None => if self.completed + 1 == self.sources.len() {
                    Run { phase: Phase::Finished, completed: self.completed + 1, ..self }
                } else {
                    Run { completed: self.completed + 1, ..self }
                },
            }
        }
    }

    /// What the run reports when a copy was made, or could not be.
    pub open spec fn copy_events(self, failure: Option<Seq<char>>) -> Seq<Event> {
        if !(self.phase is Copying) {
            Seq::empty()
        } else {
            match failure {
                Some(e) => seq![Event::Failure(e)],
                None => {
                    let progress = Event::Progress {
                        completed: self.completed + 1,
                        total: self.sources.len(),
                    };
                    if self.completed + 1 == self.sources.len() {
                        seq![progress, Event::Success(self.targets)]
                    } else {
                        seq![progress]
                    }
                },
            }
        }
    }
}

impl View for Renaming {
    type V = Run;

    closed spec fn view(&self) -> Run {
        Run {
            phase: self.phase,
            input: self.input@,
            output: self.output@,
            extension: self.extension@,
            padding_zeros: self.padding_zeros as nat,
            include_original_name: self.include_original_name,
            sources: texts(self.sources@),
            targets: texts(self.targets@),
            completed: self.completed as nat,
        }
    }
}

/// Works out where the copies of `files` go.
pub fn plan_destinations(
    files: &[String],
    output: &str,
    padding_zeros: usize,
    include_original_name: bool,
) -> (targets: Vec<String>)
    ensures
        texts(targets@) == destinations(
            texts(files@),
            output@,
            padding_zeros as nat,
            include_original_name,
        ),
{
    let names = rename_files_with_leading_zeros(files, padding_zeros, include_original_name);
    let mut targets: Vec<String> = Vec::new();
    let mut i: usize = 0;
    proof {
        let plan = name_plan(texts(files@), padding_zeros as nat, include_original_name);
        assert(texts(names@).len() == names@.len());
        assert forall|j: int| 0 <= j < files@.len() implies (#[trigger] names@[j])@ == new_name(
            files@[j]@,
            (j + 1) as nat,
            padding_zeros as nat,
            include_original_name,
        ) by {
            assert(texts(names@)[j] == names@[j]@);
            assert(plan[j] == new_name(
                texts(files@)[j],
                (j + 1) as nat,
                padding_zeros as nat,
                include_original_name,
            ));
        }
    }
    while i < names.len()
        invariant
            i <= names@.len(),
            names@.len() == files@.len(),
            targets@.len() == i,
            forall|j: int|
                0 <= j < files@.len() ==> (#[trigger] names@[j])@ == new_name(
                    files@[j]@,
                    (j + 1) as nat,
                    padding_zeros as nat,
                    include_original_name,
                ),
            forall|j: int|
                0 <= j < i ==> (#[trigger] targets@[j])@ == joined(
                    output@,
                    new_name(
                        files@[j]@,
                        (j + 1) as nat,
                        padding_zeros as nat,
                        include_original_name,
                    ),
                ),
        decreases names@.len() - i,
    {
        let target = join_path(output, names[i].as_str());
        targets.push(target);
        i += 1;
    }
    assert(texts(targets@) =~= destinations(
        texts(files@),
        output@,
        padding_zeros as nat,
        include_original_name,
    ));
    targets
}

/// Sets up a run that copies the files under `input` with the extension
/// `ext` into `output`. A path that is not given counts as the empty path.
/// The dots that `ext` starts with are dropped.
pub fn perform_renaming_with_progress(
    input: Option<String>,
    output: Option<String>,
    ext: String,
    padding_zeros: usize,
    include_original_name: bool,
) -> (run: Renaming)
    ensures
        run@ == (Run {
            phase: Phase::Listing,
            input: match input {
                Some(p) => p@,
                None => Seq::empty(),
            },
            output: match output {
                Some(p) => p@,
                None => Seq::empty(),
            },
            extension: without_leading_dots(ext@),
            padding_zeros: padding_zeros as nat,
            include_original_name,
            sources: Seq::empty(),
            targets: Seq::empty(),
            completed: 0,
        }),
        run@.wf(),
{
    let input_path = match input {
        Some(p) => p,
        None => String::new(),
    };
    let output_path = match output {
        Some(p) => p,
        None => String::new(),
    };
    let run = Renaming {
        phase: Phase::Listing,
        input: input_path,
        output: output_path,
        extension: strip_leading_dots(ext.as_str()),
        padding_zeros,
        include_original_name,
        sources: Vec::new(),
        targets: Vec::new(),
        completed: 0,
    };
    assert(run@.sources =~= Seq::empty());
    assert(run@.targets =~= Seq::empty());
    run
}

impl Renaming {
    /// Every run is well formed.
    #[verifier::type_invariant]
    spec fn inv(&self) -> bool {
        self@.wf()
    }

    /// What the caller is to do next.
    pub fn next_action(&self) -> (action: Action)
        ensures
            self@.wf(),
            match action {
                Action::ReadDirectory(dir) => self@.phase is Listing && dir@ == self@.input,
                Action::CreateDirectory(dir) => self@.phase is Creating && dir@ == self@.output,
                Action::CopyFile(from, to) => {
                    &&& self@.phase is Copying
                    &&& from@ == self@.sources[self@.completed as int]
                    &&& to@ == self@.targets[self@.completed as int]
                },
                Action::Stop => self@.phase is Finished,
            },
    {
        proof {
            use_type_invariant(self);
            assert(self@.phase == self.phase);
            assert(self@.input == self.input@);
            assert(self@.targets.len() == self.targets@.len());
            assert(self@.sources.len() == self.sources@.len());
        }
        match self.phase {
            Phase::Listing => Action::ReadDirectory(self.input.clone()),
            Phase::Creating => Action::CreateDirectory(self.output.clone()),
            Phase::Copying => Action::CopyFile(
                self.sources[self.completed].clone(),
                self.targets[self.completed].clone(),
            ),
            Phase::Finished => Action::Stop,
        }
    }

    /// Whether the run is over.
    pub fn is_finished(&self) -> (r: bool)
        ensures
            r == (self@.phase is Finished),
    {
        match self.phase {
            Phase::Finished => true,
            _ => false,
        }
    }

    /// Takes in what was found under the input directory, or the reason why it
    /// could not be read. Of the paths found, those with the extension are
    /// kept, in natural order. With none left, or with no listing, the run ends
    /// in a failure; otherwise it goes on to the output directory.
    pub fn listed(&mut self, found: Result<Vec<String>, String>) -> (emitted: Vec<Message>)
        ensures
            final(self)@ == old(self)@.after_listing(found_view(found)),
            events(emitted@) == old(self)@.listing_events(found_view(found)),
            final(self)@.wf(),
    {
        proof {
            use_type_invariant(&*self);
        }
        let mut emitted: Vec<Message> = Vec::new();
        match self.phase {
            Phase::Listing => {},
            _ => {
                assert(events(emitted@) =~= Seq::empty());
                return emitted;
            },
        }
        match found {
            Err(e) => {
                self.phase = Phase::Finished;
                emitted.push(Message::RenamingDone(Err(e)));
                assert(events(emitted@) =~= seq![Event::Failure(e@)]);
            },
            Ok(paths) => {
                let files = list_files_in_directory(paths.as_slice(), self.extension.as_str());
                if files.len() == 0 {
                    self.phase = Phase::Finished;
                    let text = String::from_str("No files found to rename.");
                    emitted.push(Message::RenamingDone(Err(text)));
                    assert(events(emitted@) =~= seq![Event::Failure(no_files_text())]);
                } else {
                    let targets = plan_destinations(
                        files.as_slice(),
                        self.output.as_str(),
                        self.padding_zeros,
                        self.include_original_name,
                    );
                    self.sources = files;
                    self.targets = targets;
                    self.phase = Phase::Creating;
                    assert(events(emitted@) =~= Seq::empty());
                }
            },
        }
        emitted
    }

    /// Takes in whether the output directory is there. If it could not be
    /// made, the run ends in a failure; otherwise the copying begins.
    pub fn directory_created(&mut self, result: Result<(), String>) -> (emitted: Vec<Message>)
        ensures
            final(self)@ == old(self)@.after_directory(failure_of(result)),
            events(emitted@) == old(self)@.directory_events(failure_of(result)),
            final(self)@.wf(),
    {
        proof {
            use_type_invariant(&*self);
        }
        let mut emitted: Vec<Message> = Vec::new();
        match self.phase {
            Phase::Creating => {},
            _ => {
                assert(events(emitted@) =~= Seq::empty());
                return emitted;
            },
        }
        match result {
            Err(e) => {
                self.phase = Phase::Finished;
                emitted.push(Message::RenamingDone(Err(e)));
                assert(events(emitted@) =~= seq![Event::Failure(e@)]);
            },
            Ok(_) => {
                self.phase = Phase::Copying;
                assert(events(emitted@) =~= Seq::empty());
            },
        }
        emitted
    }

    /// Takes in whether the file that was due has been copied. A failure ends
    /// the run at once, and no further file is asked for. A success is
    /// reported as progress; after the last file the list of all copies
    /// follows, and the run is over.
    pub fn copied(&mut self, result: Result<(), String>) -> (emitted: Vec<Message>)
        ensures
            final(self)@ == old(self)@.after_copy(failure_of(result)),
            events(emitted@) == old(self)@.copy_events(failure_of(result)),
            final(self)@.wf(),
    {
        proof {
            use_type_invariant(&*self);
        }
        let mut emitted: Vec<Message> = Vec::new();
        match self.phase {
            Phase::Copying => {},
            _ => {
                assert(events(emitted@) =~= Seq::empty());
                return emitted;
            },
        }
        match result {
            Err(e) => {
                self.phase = Phase::Finished;
                emitted.push(Message::RenamingDone(Err(e)));
                assert(events(emitted@) =~= seq![Event::Failure(e@)]);
            },
            Ok(_) => {
                let total = self.sources.len();
                let done = self.completed + 1;
                emitted.push(Message::RenamingProgress(done, total));
                if done == total {
                    self.phase = Phase::Finished;
                    self.completed = done;
                    let copies = clone_all(&self.targets);
                    emitted.push(Message::RenamingDone(Ok(copies)));
                    assert(events(emitted@) =~= old(self)@.copy_events(failure_of(result)));
                } else {
                    self.completed = done;
                    assert(events(emitted@) =~= old(self)@.copy_events(failure_of(result)));
                }
            },
        }
        emitted
    }
}

} // verus!
