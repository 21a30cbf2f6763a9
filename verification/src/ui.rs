//! The state of the application and how each message changes it.
//!
//! The state decides; the caller does the outside work. `update` takes a
//! message, changes the state and says what is to be done next: open the
//! folder chooser, read the input folder for a new preview, or start a
//! renaming run.

use vstd::prelude::*;
use crate::executor::{
    destinations,
    found_view,
    perform_renaming_with_progress,
    plan_destinations,
    Phase,
    Renaming,
    Run,
};
use crate::listing::{files_in_order, list_files_in_directory, texts};
use crate::message::Message;
use crate::padding::{auto_padding, compute_auto_padding};
use crate::paths::{join_path, joined};
use crate::text::{decimal, decimal_string, strip_leading_dots, without_leading_dots};

verus! {

/// The state of the application.
pub struct State {
    pub folder_selector_opened: bool,
    pub input_folder_path: Option<String>,
    pub output_folder_path: Option<String>,
    pub default_home_dir: String,
    pub status_message: String,
    pub file_extension: String,
    pub total_files: usize,
    pub renamed_count: usize,
    pub renaming_in_progress: bool,
    pub original_preview: Vec<String>,
    pub renamed_preview: Vec<String>,
    pub padding_zeros: usize,
    pub include_original_name: bool,
    pub auto_padding: bool,
}

/// The state as the contracts see it.
pub struct Screen {
    pub folder_selector_opened: bool,
    pub input_folder_path: Option<Seq<char>>,
    pub output_folder_path: Option<Seq<char>>,
    pub default_home_dir: Seq<char>,
    pub status_message: Seq<char>,
    pub file_extension: Seq<char>,
    pub total_files: nat,
    pub renamed_count: nat,
    pub renaming_in_progress: bool,
    pub original_preview: Seq<Seq<char>>,
    pub renamed_preview: Seq<Seq<char>>,
    pub padding_zeros: nat,
    pub include_original_name: bool,
    pub auto_padding: bool,
}

/// What `update` asks its caller to do.
pub enum Command {
    /// Nothing.
    Idle,
    /// Let the user choose the input folder, starting at this directory, and
    /// send the answer as `Message::InputFolderPathed` (the empty string where
    /// the user chose none).
    ChooseInputFolder(String),
    /// The same for the output folder, answered by
    /// `Message::OutputFolderPathed`.
    ChooseOutputFolder(String),
    /// Collect the paths of all regular files beneath `dir` and hand them,
    /// with `adjust_padding`, to `update_preview`.
    ReadInputFolder { dir: String, adjust_padding: bool },
    /// Carry out this run, sending on each message that it emits.
    Rename(Renaming),
}

/// The contents of a string that may be missing.
pub open spec fn text_of(path: Option<String>) -> Option<Seq<char>> {
    match path {
        Some(p) => Some(p@),
        None => None,
    }
}

/// The path, or the empty path where there is none.
pub open spec fn or_empty(path: Option<Seq<char>>) -> Seq<char> {
    match path {
        Some(p) => p,
        None => Seq::empty(),
    }
}

/// The first twenty items of a list; all of them where there are fewer.
pub open spec fn first_twenty(list: Seq<Seq<char>>) -> Seq<Seq<char>> {
    if list.len() <= 20 {
        list
    } else {
        list.take(20)
    }
}

/// What the status line says where no file has the extension.
pub open spec fn no_match_text(ext: Seq<char>) -> Seq<char> {
    "No files with extension ."@ + ext + " found in input folder."@
}

/// What the status line says where `count` files were found.
pub open spec fn found_text(count: nat) -> Seq<char> {
    "Found "@ + decimal(count) + " files (preview limited to 20)."@
}

/// What the status line says where the input folder could not be read.
pub open spec fn read_error_text(error: Seq<char>) -> Seq<char> {
    "Error reading input folder: "@ + error
}

/// What the status line says after a run that copied `count` files.
pub open spec fn complete_text(count: nat) -> Seq<char> {
    "Renaming complete! "@ + decimal(count) + " files renamed."@
}

/// What the status line says after a run that failed.
pub open spec fn error_text(error: Seq<char>) -> Seq<char> {
    "Error: "@ + error
}

/// What the status line says while `done` of `total` files are copied.
pub open spec fn progress_text(done: nat, total: nat) -> Seq<char> {
    "Renaming... "@ + decimal(done) + "/"@ + decimal(total)
}

/// What the status line says where renaming is asked for before both
/// folders are chosen.
pub open spec fn select_both_text() -> Seq<char> {
    "Please select both input and output folders before starting."@
}

impl View for State {
    type V = Screen;

    open spec fn view(&self) -> Screen {
        Screen {
            folder_selector_opened: self.folder_selector_opened,
            input_folder_path: text_of(self.input_folder_path),
            output_folder_path: text_of(self.output_folder_path),
            default_home_dir: self.default_home_dir@,
            status_message: self.status_message@,
            file_extension: self.file_extension@,
            total_files: self.total_files as nat,
            renamed_count: self.renamed_count as nat,
            renaming_in_progress: self.renaming_in_progress,
            original_preview: texts(self.original_preview@),
            renamed_preview: texts(self.renamed_preview@),
            padding_zeros: self.padding_zeros as nat,
            include_original_name: self.include_original_name,
            auto_padding: self.auto_padding,
        }
    }
}

impl Screen {
    /// The screen after the input folder was read for a preview. Without an
    /// input folder nothing changes. A listing that could not be had is
    /// reported and clears the preview; so does one without a matching file.
    /// Otherwise the first twenty files are shown beside the places their
    /// copies would go to. Where `adjust_padding` is set and automatic
    /// padding is on, the width is first set from the number of files.
    pub open spec fn previewed(
        self,
        found: Result<Seq<Seq<char>>, Seq<char>>,
        adjust_padding: bool,
    ) -> Screen {
        if self.input_folder_path is None {
            self
        } else {
            match found {
                Err(e) => Screen {
                    status_message: read_error_text(e),
                    total_files: 0,
                    original_preview: Seq::empty(),
                    renamed_preview: Seq::empty(),
                    ..self
                },
                Ok(paths) => {
                    let files = files_in_order(paths, self.file_extension);
                    let width = if adjust_padding && self.auto_padding {
                        auto_padding(files.len())
                    } else {
                        self.padding_zeros
                    };
                    if files.len() == 0 {
                        Screen {
                            status_message: no_match_text(self.file_extension),
                            total_files: 0,
                            padding_zeros: width,
                            original_preview: Seq::empty(),
                            renamed_preview: Seq::empty(),
                            ..self
                        }
                    } else {
                        Screen {
                            status_message: found_text(files.len()),
                            total_files: files.len(),
                            padding_zeros: width,
                            original_preview: first_twenty(files),
                            renamed_preview: first_twenty(
                                destinations(
                                    files,
                                    or_empty(self.output_folder_path),
                                    width,
                                    self.include_original_name,
                                ),
                            ),
                            ..self
                        }
                    }
                },
            }
        }
    }

    /// The screen after a message.
    pub open spec fn updated(self, message: Message) -> Screen {
        match message {
            Message::FindInputFolder | Message::FindOutputFolder => Screen {
                folder_selector_opened: true,
                ..self
            },
            Message::InputFolderPathed(path) => if path@.len() == 0 {
                Screen { folder_selector_opened: false, ..self }
            } else {
                Screen {
                    folder_selector_opened: false,
                    input_folder_path: Some(path@),
                    output_folder_path: Some(joined(path@, "output"@)),
                    ..self
                }
            },
            Message::OutputFolderPathed(path) => if path@.len() == 0 {
                Screen { folder_selector_opened: false, ..self }
            } else {
                Screen { folder_selector_opened: false, output_folder_path: Some(path@), ..self }
            },
            Message::StartRenaming => if self.input_folder_path is None
                || self.output_folder_path is None {
                Screen { status_message: select_both_text(), ..self }
            } else {
                Screen { renaming_in_progress: true, renamed_count: 0, total_files: 0, ..self }
            },
            Message::RenamingDone(Ok(files)) => Screen {
                renaming_in_progress: false,
                status_message: complete_text(files@.len()),
                ..self
            },
            Message::RenamingDone(Err(e)) => Screen {
                renaming_in_progress: false,
                status_message: error_text(e@),
                ..self
            },
            Message::ExtensionChanged(ext) => Screen {
                file_extension: without_leading_dots(ext@),
                ..self
            },
            Message::RenamingProgress(done, total) => Screen {
                renamed_count: done as nat,
                total_files: total as nat,
                status_message: progress_text(done as nat, total as nat),
                ..self
            },
            Message::PaddingChanged(width) => Screen { padding_zeros: width as nat, ..self },
            Message::IncludeOriginalNameChanged(on) => Screen {
                include_original_name: on,
                ..self
            },
            Message::SetAutoPadding(on) => Screen { auto_padding: on, ..self },
        }
    }

    /// The run that a request to start renaming sets up.
    pub open spec fn run(self) -> Run {
        Run {
            phase: Phase::Listing,
            input: or_empty(self.input_folder_path),
            output: or_empty(self.output_folder_path),
            extension: without_leading_dots(self.file_extension),
            padding_zeros: self.padding_zeros,
            include_original_name: self.include_original_name,
            sources: Seq::empty(),
            targets: Seq::empty(),
            completed: 0,
        }
    }

    /// Whether `command` is what the message asks for on this screen.
    ///
    /// The folder chooser opens only where it is not open yet, at the folder
    /// chosen before or else at the home directory. A new input folder is
    /// read for a preview that leaves the padding alone. A change of
    /// extension, padding, naming or automatic padding has the input folder,
    /// where there is one, read for a preview that may adjust the padding.
    /// Renaming starts only where both folders are chosen.
    pub open spec fn asks_for(self, message: Message, command: Command) -> bool {
        match message {
            Message::FindInputFolder => if self.folder_selector_opened {
                command is Idle
            } else {
                command matches Command::ChooseInputFolder(dir) && dir@ == match self.input_folder_path {
                    Some(p) => p,
                    None => self.default_home_dir,
                }
            },
            Message::FindOutputFolder => if self.folder_selector_opened {
                command is Idle
            } else {
                command matches Command::ChooseOutputFolder(dir) && dir@ == match self.output_folder_path {
                    Some(p) => p,
                    None => self.default_home_dir,
                }
            },
            Message::InputFolderPathed(path) => if path@.len() == 0 {
                command is Idle
            } else {
                command matches Command::ReadInputFolder { dir, adjust_padding } && dir@ == path@
                    && !adjust_padding
            },
            Message::StartRenaming => if self.input_folder_path is None
                || self.output_folder_path is None {
                command is Idle
            } else {
                command matches Command::Rename(run) && run@ == self.run()
            },
            Message::ExtensionChanged(_)
            | Message::PaddingChanged(_)
            | Message::IncludeOriginalNameChanged(_)
            | Message::SetAutoPadding(_) => match self.input_folder_path {
                Some(input) => command matches Command::ReadInputFolder { dir, adjust_padding }
                    && dir@ == input && adjust_padding,
                None => command is Idle,
            },
            Message::OutputFolderPathed(_)
            | Message::RenamingDone(_)
            | Message::RenamingProgress(_, _) => command is Idle,
        }
    }
}

/// A copy of a path that may be missing.
fn clone_path(path: &Option<String>) -> (copy: Option<String>)
    ensures
        text_of(copy) == text_of(*path),
{
    match path {
        Some(p) => Some(p.clone()),
        None => None,
    }
}

/// A copy of the first twenty items of `list`.
fn take_twenty(list: &Vec<String>) -> (shown: Vec<String>)
    ensures
        texts(shown@) == first_twenty(texts(list@)),
{
    let limit: usize = if list.len() <= 20 {
        list.len()
    } else {
        20
    };
    let mut shown: Vec<String> = Vec::new();
    let mut i: usize = 0;
    while i < limit
        invariant
            i <= limit,
            limit <= list@.len(),
            shown@.len() == i,
            forall|j: int| 0 <= j < i ==> (#[trigger] shown@[j])@ == list@[j]@,
        decreases limit - i,
    {
        shown.push(list[i].clone());
        i += 1;
    }
    assert(texts(shown@) =~= first_twenty(texts(list@)));
    shown
}

/// `head`, the numeral of `count`, and `tail`, one after the other.
fn counted_text(head: &str, count: usize, tail: &str) -> (text: String)
    ensures
        text@ == head@ + decimal(count as nat) + tail@,
{
    let mut text = String::from_str(head);
    let numeral = decimal_string(count);
    text.append(numeral.as_str());
    text.append(tail);
    text
}

impl State {
    /// The state in which the application starts.
    pub fn new(default_home_dir: String) -> (state: State)
        ensures
            state@ == (Screen {
                folder_selector_opened: false,
                input_folder_path: None,
                output_folder_path: None,
                default_home_dir: default_home_dir@,
                status_message: Seq::empty(),
                file_extension: "mp3"@,
                total_files: 0,
                renamed_count: 0,
                renaming_in_progress: false,
                original_preview: Seq::empty(),
                renamed_preview: Seq::empty(),
                padding_zeros: 3,
                include_original_name: true,
                auto_padding: true,
            }),
    {
        let state = State {
            folder_selector_opened: false,
            input_folder_path: None,
            output_folder_path: None,
            default_home_dir,
            status_message: String::new(),
            file_extension: String::from_str("mp3"),
            total_files: 0,
            renamed_count: 0,
            renaming_in_progress: false,
            original_preview: Vec::new(),
            renamed_preview: Vec::new(),
            padding_zeros: 3,
            include_original_name: true,
            auto_padding: true,
        };
        assert(texts(state.original_preview@) =~= Seq::empty());
        assert(texts(state.renamed_preview@) =~= Seq::empty());
        state
    }

    /// Empties both preview lists.
    fn clear_preview(&mut self)
        ensures
            final(self)@ == (Screen {
                original_preview: Seq::empty(),
                renamed_preview: Seq::empty(),
                ..old(self)@
            }),
    {
        self.original_preview = Vec::new();
        self.renamed_preview = Vec::new();
        assert(texts(self.original_preview@) =~= Seq::empty());
        assert(texts(self.renamed_preview@) =~= Seq::empty());
    }
}

/// Renews the preview from what was found under the input folder, or from
/// the reason why it could not be read.
pub fn update_preview(
    state: &mut State,
    found: Result<Vec<String>, String>,
    adjust_padding: bool,
)
    ensures
        final(state)@ == old(state)@.previewed(found_view(found), adjust_padding),
{
    if state.input_folder_path.is_none() {
        return ;
    }
    match found {
        Ok(paths) => {
            let files = list_files_in_directory(paths.as_slice(), state.file_extension.as_str());
            state.total_files = files.len();
            if adjust_padding && state.auto_padding {
                state.padding_zeros = compute_auto_padding(files.len());
            }
            if files.len() == 0 {
                let mut text = String::from_str("No files with extension .");
                text.append(state.file_extension.as_str());
                text.append(" found in input folder.");
                state.status_message = text;
                state.clear_preview();
            } else {
                let output = match &state.output_folder_path {
                    Some(p) => p.clone(),
                    None => String::new(),
                };
                let targets = plan_destinations(
                    files.as_slice(),
                    output.as_str(),
                    state.padding_zeros,
                    state.include_original_name,
                );
                state.original_preview = take_twenty(&files);
                state.renamed_preview = take_twenty(&targets);
                state.status_message =
                counted_text("Found ", files.len(), " files (preview limited to 20).");
            }
        },
        Err(e) => {
            let mut text = String::from_str("Error reading input folder: ");
            text.append(e.as_str());
            state.status_message = text;
            state.total_files = 0;
            state.clear_preview();
        },
    }
}

/// What a change of the settings asks for: a new preview where an input
/// folder is chosen.
fn refresh(state: &State) -> (command: Command)
    ensures
        match state@.input_folder_path {
            Some(input) => command matches Command::ReadInputFolder { dir, adjust_padding } && dir@
                == input && adjust_padding,
            None => command is Idle,
        },
{
    match &state.input_folder_path {
        Some(input) => Command::ReadInputFolder { dir: input.clone(), adjust_padding: true },
        None => Command::Idle,
    }
}

/// Takes in a message: changes the state and says what is to be done next.
pub fn update(state: &mut State, message: Message) -> (command: Command)
    ensures
        final(state)@ == old(state)@.updated(message),
        old(state)@.asks_for(message, command),
{
    match message {
        Message::FindInputFolder => {
            if !state.folder_selector_opened {
                state.folder_selector_opened = true;
                let dir = match &state.input_folder_path {
                    Some(p) => p.clone(),
                    None => state.default_home_dir.clone(),
                };
                Command::ChooseInputFolder(dir)
            } else {
                Command::Idle
            }
        },
        Message::FindOutputFolder => {
            if !state.folder_selector_opened {
                state.folder_selector_opened = true;
                let dir = match &state.output_folder_path {
                    Some(p) => p.clone(),
                    None => state.default_home_dir.clone(),
                };
                Command::ChooseOutputFolder(dir)
            } else {
                Command::Idle
            }
        },
        Message::InputFolderPathed(path) => {
            state.folder_selector_opened = false;
            if path.as_str().unicode_len() != 0 {
                let output = join_path(path.as_str(), "output");
                state.input_folder_path = Some(path.clone());
                state.output_folder_path = Some(output);
                Command::ReadInputFolder { dir: path, adjust_padding: false }
            } else {
                Command::Idle
            }
        },
        Message::OutputFolderPathed(path) => {
            state.folder_selector_opened = false;
            if path.as_str().unicode_len() != 0 {
                state.output_folder_path = Some(path);
            }
            Command::Idle
        },
        Message::StartRenaming => {
            if state.input_folder_path.is_none() || state.output_folder_path.is_none() {
                state.status_message = String::from_str(
                    "Please select both input and output folders before starting.",
                );
                Command::Idle
            } else {
                state.renaming_in_progress = true;
                state.renamed_count = 0;
                state.total_files = 0;
                let input = clone_path(&state.input_folder_path);
                let output = clone_path(&state.output_folder_path);
                let ext = state.file_extension.clone();
                Command::Rename(
                    perform_renaming_with_progress(
                        input,
                        output,
                        ext,
                        state.padding_zeros,
                        state.include_original_name,
                    ),
                )
            }
        },
        Message::RenamingDone(result) => {
            state.renaming_in_progress = false;
            match result {
                Ok(files) => {
                    state.status_message =
                    counted_text("Renaming complete! ", files.len(), " files renamed.");
                },
                Err(e) => {
                    let mut text = String::from_str("Error: ");
                    text.append(e.as_str());
                    state.status_message = text;
                },
            }
            Command::Idle
        },
        Message::ExtensionChanged(ext) => {
            state.file_extension = strip_leading_dots(ext.as_str());
            refresh(state)
        },
        Message::RenamingProgress(done, total) => {
            state.renamed_count = done;
            state.total_files = total;
            let mut text = counted_text("Renaming... ", done, "/");
            let numeral = decimal_string(total);
            text.append(numeral.as_str());
            state.status_message = text;
            Command::Idle
        },
        Message::PaddingChanged(value) => {
            state.padding_zeros = value;
            refresh(state)
        },
        Message::IncludeOriginalNameChanged(on) => {
            state.include_original_name = on;
            refresh(state)
        },
        Message::SetAutoPadding(on) => {
            state.auto_padding = on;
            refresh(state)
        },
    }
}

} // verus!
