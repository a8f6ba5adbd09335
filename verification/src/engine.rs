//! The commands of the browser.
//!
//! A command changes the session, asks the caller for one action on the
//! filesystem, or both. The caller performs the action and reports how it
//! ended; nothing here reads or writes a file.

use crate::encoding::{decode, encode, percent_decoded, percent_encoded};
use crate::error::{CommandError, FilesystemOpError, PathError, ScanError};
use crate::listing::{is_listing_of, known_entries, presentation, presentation_spec, scan, scan_error};
use crate::listing::{DirectoryEntry, DirectoryEntryView, EntryKind, Listing, Presentation, Snapshot};
use crate::path::{extension, extension_spec, file_name, file_name_spec, join_spec, replace_all};
use crate::path::{replaced, resolve_spec, AbsolutePath};
use crate::session::{InteractionMode, Session, SessionView};
use vstd::prelude::*;
use vstd::string::*;

verus! {

/// What a client can ask for. Tokens are percent-encoded.
#[derive(Debug)]
pub enum Command {
    ListDirectory,
    Navigate(String),
    ToggleMoveMode,
    Preview(String),
    CreateFolder(String),
    RenameShowcase(String),
    RelocateShowcase(String),
}

/// A command as plain values.
pub enum CommandView {
    ListDirectory,
    Navigate(Seq<char>),
    ToggleMoveMode,
    Preview(Seq<char>),
    CreateFolder(Seq<char>),
    RenameShowcase(Seq<char>),
    RelocateShowcase(Seq<char>),
}

impl View for Command {
    type V = CommandView;

    open spec fn view(&self) -> CommandView {
        match self {
            Command::ListDirectory => CommandView::ListDirectory,
            Command::Navigate(t) => CommandView::Navigate(t@),
            Command::ToggleMoveMode => CommandView::ToggleMoveMode,
            Command::Preview(t) => CommandView::Preview(t@),
            Command::CreateFolder(t) => CommandView::CreateFolder(t@),
            Command::RenameShowcase(t) => CommandView::RenameShowcase(t@),
            Command::RelocateShowcase(t) => CommandView::RelocateShowcase(t@),
        }
    }
}

/// One action on the host filesystem, for the caller to perform.
#[derive(Debug)]
pub enum FsAction {
    /// Create this directory, and its ancestors where they are missing.
    CreateDirectory(AbsolutePath),
    /// Rename the file `from` to `to`.
    Rename { from: String, to: AbsolutePath },
}

/// An action as plain values.
pub enum FsActionView {
    CreateDirectory(Seq<char>),
    Rename { from: Seq<char>, to: Seq<char> },
}

impl View for FsAction {
    type V = FsActionView;

    open spec fn view(&self) -> FsActionView {
        match self {
            FsAction::CreateDirectory(p) => FsActionView::CreateDirectory(p@),
            FsAction::Rename { from, to } => (FsActionView::Rename { from: from@, to: to@ }),
        }
    }
}

/// What the client shows for a previewed file.
#[derive(Debug)]
pub struct PreviewTarget {
    pub kind: Presentation,
    /// The path under which the file is served.
    pub served_path: String,
    /// The edge of the frame in pixels, where the presentation has one.
    pub size_hint: Option<u32>,
}

/// A preview target as plain values.
pub struct PreviewTargetView {
    pub kind: Presentation,
    pub served_path: Seq<char>,
    pub size_hint: Option<u32>,
}

impl View for PreviewTarget {
    type V = PreviewTargetView;

    open spec fn view(&self) -> PreviewTargetView {
        PreviewTargetView { kind: self.kind, served_path: self.served_path@, size_hint: self.size_hint }
    }
}

/// What the caller does next for a command.
#[derive(Debug)]
pub enum Step {
    /// Read this directory and hand the snapshot to `list_directory`.
    Scan(AbsolutePath),
    /// Nothing: the command is done.
    Done,
    /// Present the file.
    Present(PreviewTarget),
    /// Find out whether this directory exists and hand the answer to
    /// `folder_creation`.
    Probe(AbsolutePath),
    /// Perform the action and hand its outcome to `settle`.
    Perform(FsAction),
}

/// A step as plain values.
pub enum StepView {
    Scan(Seq<char>),
    Done,
    Present(PreviewTargetView),
    Probe(Seq<char>),
    Perform(FsActionView),
}

impl View for Step {
    type V = StepView;

    open spec fn view(&self) -> StepView {
        match self {
            Step::Scan(p) => StepView::Scan(p@),
            Step::Done => StepView::Done,
            Step::Present(t) => StepView::Present(t@),
            Step::Probe(p) => StepView::Probe(p@),
            Step::Perform(a) => StepView::Perform(a@),
        }
    }
}

/// The edge of a video frame.
pub const VIDEO_FRAME: u32 = 400;

/// The plan of a command as plain values.
pub open spec fn plan_view(plan: Result<FsAction, CommandError>) -> Result<FsActionView, CommandError> {
    match plan {
        Ok(action) => Ok(action@),
        Err(e) => Err(e),
    }
}

/// The session after it has moved to where `destination` leads.
pub open spec fn navigated(s: SessionView, root: Seq<char>, destination: Seq<char>) -> SessionView {
    SessionView { current_directory: Some(resolve_spec(s.directory_or(root), destination)), ..s }
}

/// The session with `file` on show.
pub open spec fn showing(s: SessionView, file: Seq<char>) -> SessionView {
    SessionView { showcase: Some(file), ..s }
}

/// What is shown for `file`: a video or an image by its extension, served
/// under `prefix` in place of `root`.
pub open spec fn preview_target(root: Seq<char>, prefix: Seq<char>, file: Seq<char>) -> PreviewTargetView {
    let kind = presentation_spec(extension_spec(file));
    PreviewTargetView {
        kind,
        served_path: replaced(file, root, prefix),
        size_hint: if kind == Presentation::Video {
            Some(VIDEO_FRAME)
        } else {
            None
        },
    }
}

/// What creating a folder asks for: nothing where the target exists.
pub open spec fn creation_spec(target: Seq<char>, exists: bool) -> Option<FsActionView> {
    if exists {
        None
    } else {
        Some(FsActionView::CreateDirectory(target))
    }
}

/// The plan for renaming the file on show to `name` in the current
/// directory.
pub open spec fn rename_plan(s: SessionView, root: Seq<char>, name: Seq<char>) -> Result<
    FsActionView,
    CommandError,
> {
    match s.showcase {
        None => Err(CommandError::NoShowcase),
        Some(file) => if name.len() == 0 {
            Err(CommandError::EmptyInput)
        } else {
            Ok(FsActionView::Rename { from: file, to: join_spec(s.directory_or(root), name) })
        },
    }
}

/// The plan for moving the file on show into `destination`, under its own
/// name.
pub open spec fn relocate_plan(s: SessionView, root: Seq<char>, destination: Seq<char>) -> Result<
    FsActionView,
    CommandError,
> {
    match s.showcase {
        None => Err(CommandError::NoShowcase),
        Some(file) => match file_name_spec(file) {
            None => Err(CommandError::NoShowcase),
            Some(name) => Ok(
                FsActionView::Rename {
                    from: file,
                    to: join_spec(join_spec(s.directory_or(root), destination), name),
                },
            ),
        },
    }
}

/// A plan that needs a decoded token: none without a file on show, none
/// for a token that does not decode.
pub open spec fn plan_with_token(
    s: SessionView,
    decoded: Option<Seq<char>>,
    plan: spec_fn(Seq<char>) -> Result<FsActionView, CommandError>,
) -> Result<FsActionView, CommandError> {
    if s.showcase is None {
        Err(CommandError::NoShowcase)
    } else {
        match decoded {
            None => Err(CommandError::Path(PathError::InvalidEncoding)),
            Some(text) => plan(text),
        }
    }
}

/// The session once the caller has reported how a relocation ended.
pub open spec fn relocated(s: SessionView, outcome: Result<(), FilesystemOpError>) -> SessionView {
    match outcome {
        Ok(_) => SessionView { showcase: None, ..s },
        Err(_) => s,
    }
}

/// What the caller's report becomes for the client.
pub open spec fn acknowledged(outcome: Result<(), FilesystemOpError>) -> Result<(), CommandError> {
    match outcome {
        Ok(_) => Ok(()),
        Err(e) => Err(CommandError::Filesystem(e)),
    }
}

/// The step of a plan: to perform its action.
pub open spec fn step_of(plan: Result<FsActionView, CommandError>) -> Result<StepView, CommandError> {
    match plan {
        Ok(action) => Ok(StepView::Perform(action)),
        Err(e) => Err(e),
    }
}

/// The step that a command asks for.
pub open spec fn dispatch_step(s: SessionView, root: Seq<char>, prefix: Seq<char>, command: CommandView) -> Result<
    StepView,
    CommandError,
> {
    match command {
        CommandView::ListDirectory => Ok(StepView::Scan(s.directory_or(root))),
        CommandView::Navigate(token) => match percent_decoded(token) {
            Some(_) => Ok(StepView::Done),
            None => Err(CommandError::Path(PathError::InvalidEncoding)),
        },
        CommandView::ToggleMoveMode => Ok(StepView::Done),
        CommandView::Preview(token) => match percent_decoded(token) {
            Some(file) => Ok(StepView::Present(preview_target(root, prefix, file))),
            None => Err(CommandError::Path(PathError::InvalidEncoding)),
        },
        CommandView::CreateFolder(name) => Ok(StepView::Probe(join_spec(s.directory_or(root), name))),
        CommandView::RenameShowcase(token) => step_of(
            plan_with_token(s, percent_decoded(token), |name: Seq<char>| rename_plan(s, root, name)),
        ),
        CommandView::RelocateShowcase(token) => step_of(
            plan_with_token(
                s,
                percent_decoded(token),
                |destination: Seq<char>| relocate_plan(s, root, destination),
            ),
        ),
    }
}

/// The session after a command has been dispatched.
pub open spec fn dispatch_state(s: SessionView, root: Seq<char>, command: CommandView) -> SessionView {
    match command {
        CommandView::ListDirectory => SessionView { current_directory: Some(s.directory_or(root)), ..s },
        CommandView::Navigate(token) => match percent_decoded(token) {
            Some(destination) => navigated(s, root, destination),
            None => s,
        },
        CommandView::ToggleMoveMode => SessionView { move_mode: !s.move_mode, ..s },
        CommandView::Preview(token) => match percent_decoded(token) {
            Some(file) => showing(s, file),
            None => s,
        },
        _ => s,
    }
}

/// The session once the caller has reported how the action of a command
/// ended: only a relocation changes it.
pub open spec fn settled(s: SessionView, command: CommandView, outcome: Result<(), FilesystemOpError>) -> SessionView {
    if command is RelocateShowcase {
        relocated(s, outcome)
    } else {
        s
    }
}

/// The command behind a click on a listed entry. A directory is entered
/// while browsing and receives the file on show in move mode; a media file
/// is previewed; anything else answers no click.
pub open spec fn click_spec(mode: InteractionMode, entry: DirectoryEntryView) -> Option<CommandView> {
    match entry.kind {
        EntryKind::Directory => match mode {
            InteractionMode::Browse => Some(CommandView::Navigate(percent_encoded(entry.display_name))),
            InteractionMode::Move => Some(
                CommandView::RelocateShowcase(percent_encoded(entry.display_name)),
            ),
        },
        EntryKind::Media => Some(CommandView::Preview(percent_encoded(entry.path))),
        EntryKind::Other => None,
    }
}

/// Whether a command changes what a listing would show.
pub open spec fn refreshes_spec(command: CommandView) -> bool {
    match command {
        CommandView::ListDirectory => false,
        CommandView::Preview(_) => false,
        _ => true,
    }
}

/// The directories that exist once `action` has been performed with
/// success.
pub open spec fn after_action(existing: Set<Seq<char>>, action: Option<FsActionView>) -> Set<Seq<char>> {
    match action {
        Some(FsActionView::CreateDirectory(target)) => existing.insert(target),
        _ => existing,
    }
}

/// Creating a folder twice creates it once: the second request asks for
/// nothing and leaves the directories as the first left them.
pub proof fn lemma_create_folder_twice(existing: Set<Seq<char>>, target: Seq<char>)
    ensures
        ({
            let once = after_action(existing, creation_spec(target, existing.contains(target)));
            let again = creation_spec(target, once.contains(target));
            &&& once.contains(target)
            &&& again is None
            &&& after_action(once, again) == once
        }),
{
}

/// Once a file has been previewed, relocating it is planned as a rename of
/// that file into the destination, and a successful rename leaves nothing
/// on show.
pub proof fn lemma_relocate_clears_showcase(
    s: SessionView,
    root: Seq<char>,
    file: Seq<char>,
    destination: Seq<char>,
)
    requires
        file_name_spec(file) is Some,
    ensures
        relocate_plan(showing(s, file), root, destination) == Ok::<FsActionView, CommandError>(
            FsActionView::Rename {
                from: file,
                to: join_spec(join_spec(s.directory_or(root), destination), file_name_spec(file)->0),
            },
        ),
        relocated(showing(s, file), Ok(())).showcase is None,
        relocated(showing(s, file), Ok(())).current_directory == s.current_directory,
{
}

/// Without a file on show no relocation is planned, whatever the token.
pub proof fn lemma_relocate_needs_showcase(s: SessionView, root: Seq<char>, token: Seq<char>)
    requires
        s.showcase is None,
    ensures
        plan_with_token(
            s,
            percent_decoded(token),
            |destination: Seq<char>| relocate_plan(s, root, destination),
        ) == Err::<FsActionView, CommandError>(CommandError::NoShowcase),
{
}

/// Lists the session's directory from a snapshot of it, storing `root` as
/// that directory where none was stored.
pub fn list_directory(session: &mut Session, root: &AbsolutePath, snapshot: &Snapshot) -> (r: Result<
    Listing,
    ScanError,
>)
    ensures
        final(session)@ == (SessionView {
            current_directory: Some(old(session)@.directory_or(root@)),
            ..old(session)@
        }),
        match r {
            Ok(listing) => scan_error(*snapshot) is None && snapshot is Children && is_listing_of(
                listing@,
                old(session)@.directory_or(root@),
                known_entries(snapshot->Children_0@),
                old(session)@.move_mode,
            ),
            Err(e) => scan_error(*snapshot) == Some(e),
        },
{
    let directory = session.get_or_init_directory(root);
    scan(&directory, snapshot, session.move_mode)
}

/// Decodes `token` and resolves it against `base`: `..` leads to the
/// parent, or nowhere from a directory without one; any other text is
/// adjoined. Fails with `InvalidEncoding` exactly when the token does not
/// decode. Nothing bounds the result: a token may lead out of any root.
pub fn resolve(base: &AbsolutePath, token: &str) -> (r: Result<AbsolutePath, PathError>)
    ensures
        match percent_decoded(token@) {
            Some(destination) => r is Ok && r->Ok_0@ == resolve_spec(base@, destination),
            None => r is Err && r->Err_0 == PathError::InvalidEncoding,
        },
        !token@.contains('%') ==> percent_decoded(token@) == Some(token@),
{
    match decode(token) {
        Ok(destination) => Ok(base.resolve(destination.as_str())),
        Err(e) => Err(e),
    }
}

/// Moves the session to where the decoded token `destination` leads.
pub fn navigate_to(session: &mut Session, root: &AbsolutePath, destination: &str)
    ensures
        final(session)@ == navigated(old(session)@, root@, destination@),
{
    let target = session.directory_or(root).resolve(destination);
    session.set_directory(target);
}

/// Decodes `token` and moves the session to where it leads. A token that
/// does not decode leaves the session as it was; one without any `%`
/// decodes to itself.
pub fn navigate(session: &mut Session, root: &AbsolutePath, token: &str) -> (r: Result<(), PathError>)
    ensures
        match percent_decoded(token@) {
            Some(destination) => r is Ok && final(session)@ == navigated(
                old(session)@,
                root@,
                destination,
            ),
            None => r == Err::<(), PathError>(PathError::InvalidEncoding) && final(session)@ == old(
                session,
            )@,
        },
        !token@.contains('%') ==> percent_decoded(token@) == Some(token@),
{
    match resolve(&session.directory_or(root), token) {
        Ok(target) => {
            session.set_directory(target);
            Ok(())
        },
        Err(e) => Err(e),
    }
}

/// Puts `file` on show and says how to present it.
pub fn show(session: &mut Session, root: &AbsolutePath, prefix: &str, file: String) -> (r: PreviewTarget)
    ensures
        r@ == preview_target(root@, prefix@, file@),
        final(session)@ == showing(old(session)@, file@),
{
    let kind = presentation(&extension(file.as_str()));
    let served_path = replace_all(file.as_str(), root.as_str(), prefix);
    let size_hint = match kind {
        Presentation::Video => Some(VIDEO_FRAME),
        Presentation::Image => None,
    };
    session.set_showcase(Some(file));
    PreviewTarget { kind, served_path, size_hint }
}

/// Decodes `token` and puts the file it names on show. A token that does
/// not decode leaves the session as it was.
pub fn preview(session: &mut Session, root: &AbsolutePath, prefix: &str, token: &str) -> (r: Result<
    PreviewTarget,
    PathError,
>)
    ensures
        match percent_decoded(token@) {
            Some(file) => r is Ok && r->Ok_0@ == preview_target(root@, prefix@, file) && final(session)@
                == showing(old(session)@, file),
            None => r is Err && r->Err_0 == PathError::InvalidEncoding && final(session)@ == old(
                session,
            )@,
        },
        !token@.contains('%') ==> percent_decoded(token@) == Some(token@),
{
    match decode(token) {
        Ok(file) => Ok(show(session, root, prefix, file)),
        Err(e) => Err(e),
    }
}

/// The file behind a served path: the decoded path with `root` in place of
/// every `prefix`. Fails with `InvalidEncoding` exactly when the path does
/// not decode.
pub fn locate_served(root: &AbsolutePath, prefix: &str, served: &str) -> (r: Result<String, PathError>)
    ensures
        match percent_decoded(served@) {
            Some(path) => r is Ok && r->Ok_0@ == replaced(path, prefix@, root@),
            None => r is Err && r->Err_0 == PathError::InvalidEncoding,
        },
        !served@.contains('%') ==> percent_decoded(served@) == Some(served@),
{
    match decode(served) {
        Ok(path) => Ok(replace_all(path.as_str(), prefix, root.as_str())),
        Err(e) => Err(e),
    }
}

/// Where a new folder `name` would stand.
pub fn folder_target(session: &Session, root: &AbsolutePath, name: &str) -> (r: AbsolutePath)
    ensures
        r@ == join_spec(session@.directory_or(root@), name@),
{
    session.directory_or(root).join(name)
}

/// What creating the folder at `target` asks for, given whether it exists
/// already: nothing if it does.
pub fn folder_creation(target: AbsolutePath, exists: bool) -> (r: Option<FsAction>)
    ensures
        (match r {
            Some(action) => Some(action@),
            None => None,
        }) == creation_spec(target@, exists),
{
    if exists {
        None
    } else {
        Some(FsAction::CreateDirectory(target))
    }
}

/// Plans the renaming of the file on show to the decoded `name`.
pub fn rename_to(session: &Session, root: &AbsolutePath, name: &str) -> (r: Result<FsAction, CommandError>)
    ensures
        plan_view(r) == rename_plan(session@, root@, name@),
{
    match &session.showcase {
        None => Err(CommandError::NoShowcase),
        Some(file) => {
            if name.unicode_len() == 0 {
                Err(CommandError::EmptyInput)
            } else {
                Ok(FsAction::Rename { from: file.clone(), to: session.directory_or(root).join(name) })
            }
        },
    }
}

/// Decodes `token` and plans the renaming of the file on show.
pub fn rename_showcase(session: &Session, root: &AbsolutePath, token: &str) -> (r: Result<
    FsAction,
    CommandError,
>)
    ensures
        plan_view(r) == plan_with_token(
            session@,
            percent_decoded(token@),
            |name: Seq<char>| rename_plan(session@, root@, name),
        ),
        !token@.contains('%') ==> percent_decoded(token@) == Some(token@),
{
    let decoded = decode(token);
    if session.showcase.is_none() {
        return Err(CommandError::NoShowcase);
    }
    match decoded {
        Ok(name) => rename_to(session, root, name.as_str()),
        Err(e) => Err(CommandError::Path(e)),
    }
}

/// Plans the move of the file on show into the decoded `destination`.
pub fn relocate_to(session: &Session, root: &AbsolutePath, destination: &str) -> (r: Result<
    FsAction,
    CommandError,
>)
    ensures
        plan_view(r) == relocate_plan(session@, root@, destination@),
{
    match &session.showcase {
        None => Err(CommandError::NoShowcase),
        Some(file) => match file_name(file.as_str()) {
            None => Err(CommandError::NoShowcase),
            Some(name) => Ok(
                FsAction::Rename {
                    from: file.clone(),
                    to: session.directory_or(root).join(destination).join(name.as_str()),
                },
            ),
        },
    }
}

/// Decodes `token` and plans the move of the file on show.
pub fn relocate_showcase(session: &Session, root: &AbsolutePath, token: &str) -> (r: Result<
    FsAction,
    CommandError,
>)
    ensures
        plan_view(r) == plan_with_token(
            session@,
            percent_decoded(token@),
            |destination: Seq<char>| relocate_plan(session@, root@, destination),
        ),
        !token@.contains('%') ==> percent_decoded(token@) == Some(token@),
{
    let decoded = decode(token);
    if session.showcase.is_none() {
        return Err(CommandError::NoShowcase);
    }
    match decoded {
        Ok(destination) => relocate_to(session, root, destination.as_str()),
        Err(e) => Err(CommandError::Path(e)),
    }
}

/// Takes the caller's report on a relocation: after a success nothing is
/// on show, after a failure the session is as it was.
pub fn finish_relocation(session: &mut Session, outcome: Result<(), FilesystemOpError>) -> (r: Result<
    (),
    CommandError,
>)
    ensures
        r == acknowledged(outcome),
        final(session)@ == relocated(old(session)@, outcome),
{
    match outcome {
        Ok(_) => {
            session.set_showcase(None);
            Ok(())
        },
        Err(e) => Err(CommandError::Filesystem(e)),
    }
}

/// Takes the caller's report on any other action.
pub fn acknowledge(outcome: Result<(), FilesystemOpError>) -> (r: Result<(), CommandError>)
    ensures
        r == acknowledged(outcome),
{
    match outcome {
        Ok(_) => Ok(()),
        Err(e) => Err(CommandError::Filesystem(e)),
    }
}

/// The command behind a click on `entry` in `mode`.
pub fn click_command(mode: InteractionMode, entry: &DirectoryEntry) -> (r: Option<Command>)
    ensures
        (match r {
            Some(command) => Some(command@),
            None => None,
        }) == click_spec(mode, entry@),
{
    match entry.kind {
        EntryKind::Directory => {
            let token = encode(entry.display_name.as_str());
            match mode {
                InteractionMode::Browse => Some(Command::Navigate(token)),
                InteractionMode::Move => Some(Command::RelocateShowcase(token)),
            }
        },
        EntryKind::Media => Some(Command::Preview(encode(entry.path.as_str()))),
        EntryKind::Other => None,
    }
}

/// Carries out what a command asks of the session and says what the
/// caller does next.
pub fn dispatch(session: &mut Session, root: &AbsolutePath, prefix: &str, command: &Command) -> (r: Result<
    Step,
    CommandError,
>)
    ensures
        (match r {
            Ok(step) => Ok(step@),
            Err(e) => Err(e),
        }) == dispatch_step(old(session)@, root@, prefix@, command@),
        final(session)@ == dispatch_state(old(session)@, root@, command@),
{
    match command {
        Command::ListDirectory => Ok(Step::Scan(session.get_or_init_directory(root))),
        Command::Navigate(token) => match navigate(session, root, token.as_str()) {
            Ok(_) => Ok(Step::Done),
            Err(e) => Err(CommandError::Path(e)),
        },
        Command::ToggleMoveMode => {
            session.toggle_move_mode();
            Ok(Step::Done)
        },
        Command::Preview(token) => match preview(session, root, prefix, token.as_str()) {
            Ok(target) => Ok(Step::Present(target)),
            Err(e) => Err(CommandError::Path(e)),
        },
        Command::CreateFolder(name) => Ok(Step::Probe(folder_target(session, root, name.as_str()))),
        Command::RenameShowcase(token) => match rename_showcase(session, root, token.as_str()) {
            Ok(action) => Ok(Step::Perform(action)),
            Err(e) => Err(e),
        },
        Command::RelocateShowcase(token) => match relocate_showcase(session, root, token.as_str()) {
            Ok(action) => Ok(Step::Perform(action)),
            Err(e) => Err(e),
        },
    }
}

/// Takes the caller's report on the action of `command`.
pub fn settle(session: &mut Session, command: &Command, outcome: Result<(), FilesystemOpError>) -> (r: Result<
    (),
    CommandError,
>)
    ensures
        r == acknowledged(outcome),
        final(session)@ == settled(old(session)@, command@, outcome),
{
    match command {
        Command::RelocateShowcase(_) => finish_relocation(session, outcome),
        _ => acknowledge(outcome),
    }
}

/// Whether the client should fetch the listing again after `command`.
pub fn refreshes(command: &Command) -> (r: bool)
    ensures
        r == refreshes_spec(command@),
{
    match command {
        Command::ListDirectory => false,
        Command::Preview(_) => false,
        _ => true,
    }
}

} // verus!
