//! The embedded shell of the SSH endpoint: a chain of command processors
//! over a virtual file map, with a history of the commands received.
//!
//! The transport is not here. A connection hands each `exec` request to
//! [`SshHandler::exec_request`] and writes the reply back.

use crate::error::{SshResultVoid, VoidRes};
use crate::outside::{lossy_text, utf8_lossy};
use crate::registry::{Entry, Registry};
use crate::runtime::ActorServiceMessage;
use crate::text::{
    chars_of, concat2, concat3, contains_text, decimal, decimal_digits, join, joined, matches_at,
    occurs_at, trim_bounds, trimmed, trimmed_equals, views,
};
use vstd::prelude::*;

verus! {

/// The virtual file map: contents by path, in the order in which the
/// paths were added.
pub type OsFiles = Registry<Vec<u8>>;

/// A pluggable command processor. It looks at a command and either handles
/// it, giving the text to send back and the file map as it is to be from
/// then on, or declines.
#[derive(Debug)]
pub enum CmdProcessor {
    /// Handles `ls`: lists the paths of the virtual file map.
    ListFiles,
    /// Handles `ssh_test_server`: answers with the banner of the server.
    Banner,
    /// Handles the command `command` by answering `output`.
    Reply { command: String, output: String },
    /// Handles every command that starts with `prefix` by answering
    /// `output`.
    Prefix { prefix: String, output: String },
    /// Handles the command `command` by binding `path` to `content` in the
    /// file map and answering `output`.
    Store { command: String, path: String, content: Vec<u8>, output: String },
    /// Handles the command `command` by taking `path` out of the file map
    /// and answering `output`.
    Discard { command: String, path: String, output: String },
}

/// A command processor as plain values.
pub enum ProcessorView {
    ListFiles,
    Banner,
    Reply { command: Seq<char>, output: Seq<char> },
    Prefix { prefix: Seq<char>, output: Seq<char> },
    Store { command: Seq<char>, path: Seq<char>, content: Seq<u8>, output: Seq<char> },
    Discard { command: Seq<char>, path: Seq<char>, output: Seq<char> },
}

impl View for CmdProcessor {
    type V = ProcessorView;

    open spec fn view(&self) -> ProcessorView {
        match self {
            CmdProcessor::ListFiles => ProcessorView::ListFiles,
            CmdProcessor::Banner => ProcessorView::Banner,
            CmdProcessor::Reply { command, output } => ProcessorView::Reply {
                command: command@,
                output: output@,
            },
            CmdProcessor::Prefix { prefix, output } => ProcessorView::Prefix {
                prefix: prefix@,
                output: output@,
            },
            CmdProcessor::Store { command, path, content, output } => ProcessorView::Store {
                command: command@,
                path: path@,
                content: content@,
                output: output@,
            },
            CmdProcessor::Discard { command, path, output } => ProcessorView::Discard {
                command: command@,
                path: path@,
                output: output@,
            },
        }
    }
}

/// A file map as plain values.
pub struct FilesView {
    /// The paths, in the order in which they were added.
    pub paths: Seq<Seq<char>>,
    /// The contents of the files, in the order of their paths.
    pub contents: Seq<Seq<u8>>,
}

impl FilesView {
    /// No path occurs twice, and each path has its contents.
    pub open spec fn wf(self) -> bool {
        self.paths.no_duplicates() && self.contents.len() == self.paths.len()
    }

    /// The map after `path` was bound to `content`: a path that is in the
    /// map keeps its place, a new one goes to the end.
    pub open spec fn add(self, path: Seq<char>, content: Seq<u8>) -> FilesView {
        if self.paths.contains(path) {
            FilesView { contents: self.contents.update(self.paths.index_of(path), content), ..self }
        } else {
            FilesView { paths: self.paths.push(path), contents: self.contents.push(content) }
        }
    }

    /// The map after `path` was taken out of it.
    pub open spec fn remove(self, path: Seq<char>) -> FilesView {
        if self.paths.contains(path) {
            FilesView {
                paths: self.paths.remove(self.paths.index_of(path)),
                contents: self.contents.remove(self.paths.index_of(path)),
            }
        } else {
            self
        }
    }
}

/// The contents of the rows of a file map.
pub open spec fn file_contents(rows: Seq<Entry<Vec<u8>>>) -> Seq<Seq<u8>> {
    rows.map_values(|e: Entry<Vec<u8>>| e.value@)
}

/// A file map as plain values.
pub open spec fn files_view(files: OsFiles) -> FilesView {
    FilesView { paths: files.names(), contents: file_contents(files.rows()) }
}

/// Binds `path` to `content` in `files`.
pub fn add_file(files: &mut OsFiles, path: String, content: Vec<u8>)
    requires
        old(files).wf(),
    ensures
        final(files).wf(),
        files_view(*final(files)) == files_view(*old(files)).add(path@, content@),
{
    let ghost rows = files.rows();
    files.insert(path, content);
    proof {
        let after = files.rows();
        if old(files).names().contains(path@) {
            assert(file_contents(after) =~= file_contents(rows).update(
                old(files).names().index_of(path@),
                content@,
            ));
        } else {
            assert(file_contents(after) =~= file_contents(rows).push(content@));
        }
    }
}

/// Takes `path` out of `files`.
pub fn remove_file(files: &mut OsFiles, path: &str)
    requires
        old(files).wf(),
    ensures
        final(files).wf(),
        files_view(*final(files)) == files_view(*old(files)).remove(path@),
{
    let ghost rows = files.rows();
    files.remove(path);
    proof {
        let after = files.rows();
        if old(files).names().contains(path@) {
            assert(file_contents(after) =~= file_contents(rows).remove(
                old(files).names().index_of(path@),
            ));
        }
    }
}

/// A copy of `bytes`.
pub fn copy_bytes(bytes: &Vec<u8>) -> (copy: Vec<u8>)
    ensures
        copy@ == bytes@,
{
    let mut copy: Vec<u8> = Vec::new();
    let mut i: usize = 0;
    while i < bytes.len()
        invariant
            i <= bytes.len(),
            copy@ == bytes@.take(i as int),
        decreases bytes.len() - i,
    {
        copy.push(bytes[i]);
        assert(copy@ =~= bytes@.take(i + 1));
        i += 1;
    }
    assert(bytes@.take(bytes.len() as int) =~= bytes@);
    copy
}

/// The views of a chain of processors.
pub open spec fn chain_view(chain: Seq<CmdProcessor>) -> Seq<ProcessorView> {
    chain.map_values(|p: CmdProcessor| p@)
}

/// What `ls` answers for the paths `paths`: one path to a line, or a note
/// where the lines are empty.
pub open spec fn listing(paths: Seq<Seq<char>>) -> Seq<char> {
    let lines = joined(paths, "\n"@);
    if lines.len() == 0 {
        "No files found\n"@
    } else {
        lines + "\n"@
    }
}

/// The banner of the server.
pub open spec fn banner() -> Seq<char> {
    "It is an Ssh test server!\n"@
}

/// What a processor answers to a command, if it handles it. Surrounding
/// white space does not count for the built-in commands and for a reply.
pub open spec fn answer(
    processor: ProcessorView,
    cmd: Seq<char>,
    paths: Seq<Seq<char>>,
) -> Option<Seq<char>> {
    match processor {
        ProcessorView::ListFiles => if trimmed(cmd) == "ls"@ {
            Some(listing(paths))
        } else {
            None
        },
        ProcessorView::Banner => if trimmed(cmd) == "ssh_test_server"@ {
            Some(banner())
        } else {
            None
        },
        ProcessorView::Reply { command, output } => if trimmed(cmd) == command {
            Some(output)
        } else {
            None
        },
        ProcessorView::Prefix { prefix, output } => if occurs_at(trimmed(cmd), prefix, 0) {
            Some(output)
        } else {
            None
        },
        ProcessorView::Store { command, path, content, output } => if trimmed(cmd) == command {
            Some(output)
        } else {
            None
        },
        ProcessorView::Discard { command, path, output } => if trimmed(cmd) == command {
            Some(output)
        } else {
            None
        },
    }
}

/// The file map that a processor hands back with its answer to a command
/// that it handles.
pub open spec fn updated(processor: ProcessorView, files: FilesView) -> FilesView {
    match processor {
        ProcessorView::Store { command, path, content, output } => files.add(path, content),
        ProcessorView::Discard { command, path, output } => files.remove(path),
        _ => files,
    }
}

/// What is sent back for a command that no processor handles.
pub open spec fn unknown_command(cmd: Seq<char>) -> Seq<char> {
    "Unknown command: "@ + cmd + "\n"@
}

/// What a chain answers to a command: the answer of the first processor
/// that handles it.
pub open spec fn respond(
    chain: Seq<ProcessorView>,
    cmd: Seq<char>,
    paths: Seq<Seq<char>>,
) -> Seq<char>
    decreases chain.len(),
{
    if chain.len() == 0 {
        unknown_command(cmd)
    } else {
        match answer(chain[0], cmd, paths) {
            Some(text) => text,
            None => respond(chain.drop_first(), cmd, paths),
        }
    }
}

/// The file map after a chain has answered a command: what the first
/// processor that handles the command hands back, or the same map where
/// none does.
pub open spec fn files_after(chain: Seq<ProcessorView>, cmd: Seq<char>, files: FilesView) -> FilesView
    decreases chain.len(),
{
    if chain.len() == 0 {
        files
    } else {
        match answer(chain[0], cmd, files.paths) {
            Some(text) => updated(chain[0], files),
            None => files_after(chain.drop_first(), cmd, files),
        }
    }
}

/// A processor in front of a chain shadows the chain for every command
/// that it handles, and leaves the other commands to the chain.
pub proof fn lemma_front_processor_shadows(
    chain: Seq<ProcessorView>,
    processor: ProcessorView,
    cmd: Seq<char>,
    paths: Seq<Seq<char>>,
)
    ensures
        respond(seq![processor] + chain, cmd, paths) == match answer(processor, cmd, paths) {
            Some(text) => text,
            None => respond(chain, cmd, paths),
        },
{
    assert((seq![processor] + chain).drop_first() =~= chain);
}

/// A chain of the two built-in processors hands every file map back as it
/// got it.
pub proof fn lemma_built_in_chain_keeps_files(cmd: Seq<char>, files: FilesView)
    ensures
        files_after(seq![ProcessorView::ListFiles, ProcessorView::Banner], cmd, files) == files,
{
    let chain = seq![ProcessorView::ListFiles, ProcessorView::Banner];
    let rest = chain.drop_first();
    assert(rest.len() == 1 && rest[0] == ProcessorView::Banner);
    assert(rest.drop_first().len() == 0);
    assert(files_after(rest.drop_first(), cmd, files) == files);
    assert(files_after(rest, cmd, files) == files);
}

impl CmdProcessor {
    /// What the processor answers to `cmd`, if it handles it. With an
    /// answer `files` becomes the file map that the processor hands back;
    /// a processor that declines leaves it as it is.
    pub fn apply(&self, cmd: &str, files: &mut OsFiles) -> (text: Option<String>)
        requires
            old(files).wf(),
        ensures
            final(files).wf(),
            match text {
                Some(t) => {
                    &&& answer(self@, cmd@, old(files).names()) == Some(t@)
                    &&& files_view(*final(files)) == updated(self@, files_view(*old(files)))
                },
                None => {
                    &&& answer(self@, cmd@, old(files).names()) is None
                    &&& *final(files) == *old(files)
                },
            },
    {
        match self {
            CmdProcessor::ListFiles => {
                if trimmed_equals(cmd, "ls") {
                    Some(list_files(files))
                } else {
                    None
                }
            },
            CmdProcessor::Banner => {
                if trimmed_equals(cmd, "ssh_test_server") {
                    Some(String::from_str("It is an Ssh test server!\n"))
                } else {
                    None
                }
            },
            CmdProcessor::Reply { command, output } => {
                if trimmed_equals(cmd, command.as_str()) {
                    Some(output.clone())
                } else {
                    None
                }
            },
            CmdProcessor::Prefix { prefix, output } => {
                let chars = chars_of(cmd);
                let lead = chars_of(prefix.as_str());
                let (lo, hi) = trim_bounds(&chars);
                let fits = lead.len() <= hi - lo && matches_at(&chars, &lead, lo);
                proof {
                    let t = chars@.subrange(lo as int, hi as int);
                    if lead.len() <= hi - lo {
                        assert(t.subrange(0, lead@.len() as int) =~= chars@.subrange(
                            lo as int,
                            lo + lead@.len(),
                        ));
                    }
                }
                if fits {
                    Some(output.clone())
                } else {
                    None
                }
            },
            CmdProcessor::Store { command, path, content, output } => {
                if trimmed_equals(cmd, command.as_str()) {
                    add_file(files, path.clone(), copy_bytes(content));
                    Some(output.clone())
                } else {
                    None
                }
            },
            CmdProcessor::Discard { command, path, output } => {
                if trimmed_equals(cmd, command.as_str()) {
                    remove_file(files, path.as_str());
                    Some(output.clone())
                } else {
                    None
                }
            },
        }
    }
}

/// The answer of `ls` for the files `files`.
pub fn list_files(files: &OsFiles) -> (text: String)
    ensures
        text@ == listing(files.names()),
{
    let mut paths: Vec<String> = Vec::new();
    let mut i: usize = 0;
    while i < files.len()
        invariant
            i <= files.rows().len(),
            views(paths@) == files.names().take(i as int),
        decreases files.rows().len() - i,
    {
        let ghost held = paths@;
        paths.push(files.name_at(i).clone());
        proof {
            assert(views(paths@) =~= views(held).push(files.rows()[i as int].name@));
            assert(files.names().take(i + 1) =~= files.names().take(i as int).push(
                files.names()[i as int],
            ));
        }
        i += 1;
    }
    proof {
        assert(files.names().take(files.rows().len() as int) =~= files.names());
    }
    let lines = join(&paths, "\n");
    if lines.as_str().unicode_len() == 0 {
        String::from_str("No files found\n")
    } else {
        concat2(lines.as_str(), "\n")
    }
}

/// The processors of a new server: `ls`, then `ssh_test_server`.
pub fn default_cmd_processors() -> (chain: Vec<CmdProcessor>)
    ensures
        chain_view(chain@) == seq![ProcessorView::ListFiles, ProcessorView::Banner],
{
    let mut chain: Vec<CmdProcessor> = Vec::new();
    chain.push(CmdProcessor::ListFiles);
    chain.push(CmdProcessor::Banner);
    assert(chain_view(chain@) =~= seq![ProcessorView::ListFiles, ProcessorView::Banner]);
    chain
}

/// The chain of command processors of a server.
pub struct BaseSshHandler {
    processors: Vec<CmdProcessor>,
}

impl View for BaseSshHandler {
    type V = Seq<ProcessorView>;

    closed spec fn view(&self) -> Seq<ProcessorView> {
        chain_view(self.processors@)
    }
}

impl BaseSshHandler {
    /// A handler with the given chain.
    pub fn new(processors: Vec<CmdProcessor>) -> (handler: Self)
        ensures
            handler@ == chain_view(processors@),
    {
        BaseSshHandler { processors }
    }

    /// A handler with the given chain, or with the built-in one.
    pub fn from(processors: Option<Vec<CmdProcessor>>) -> (handler: Self)
        ensures
            handler@ == match processors {
                Some(chain) => chain_view(chain@),
                None => seq![ProcessorView::ListFiles, ProcessorView::Banner],
            },
    {
        match processors {
            Some(chain) => BaseSshHandler::new(chain),
            None => BaseSshHandler::new(default_cmd_processors()),
        }
    }

    /// Puts `processor` in front of the chain, so that it is asked first.
    pub fn add_processor(&mut self, processor: CmdProcessor) -> (done: VoidRes)
        ensures
            done is Ok,
            final(self)@ == seq![processor@] + old(self)@,
    {
        let ghost before = self.processors@;
        self.processors.insert(0, processor);
        assert(chain_view(self.processors@) =~= seq![processor@] + chain_view(before));
        Ok(())
    }

    /// Number of processors in the chain.
    pub fn len(&self) -> (n: usize)
        ensures
            n == self@.len(),
    {
        self.processors.len()
    }

    /// The text to send back for `cmd`: the answer of the first processor
    /// that handles it, or a note that the command is unknown. `files`
    /// becomes the file map that this processor hands back.
    pub fn handle_command(&self, cmd: &str, files: &mut OsFiles) -> (text: String)
        requires
            old(files).wf(),
        ensures
            final(files).wf(),
            text@ == respond(self@, cmd@, old(files).names()),
            files_view(*final(files)) == files_after(self@, cmd@, files_view(*old(files))),
    {
        let mut i: usize = 0;
        assert(self@.skip(0) =~= self@);
        while i < self.processors.len()
            invariant
                i <= self.processors.len(),
                *files == *old(files),
                files.wf(),
                respond(self@, cmd@, files.names()) == respond(
                    self@.skip(i as int),
                    cmd@,
                    files.names(),
                ),
                files_after(self@, cmd@, files_view(*files)) == files_after(
                    self@.skip(i as int),
                    cmd@,
                    files_view(*files),
                ),
            decreases self.processors.len() - i,
        {
            let ghost rest = self@.skip(i as int);
            assert(rest[0] == self.processors@[i as int]@);
            assert(rest.drop_first() =~= self@.skip(i + 1));
            match self.processors[i].apply(cmd, files) {
                Some(text) => {
                    return text;
                },
                None => {},
            }
            i += 1;
        }
        concat3("Unknown command: ", cmd, "\n")
    }
}

impl Default for BaseSshHandler {
    fn default() -> (handler: Self)
        ensures
            handler@ == seq![ProcessorView::ListFiles, ProcessorView::Banner],
    {
        BaseSshHandler::new(default_cmd_processors())
    }
}

/// An operation on the virtual file map.
#[derive(Debug)]
pub enum SshFileOperation {
    /// Binds a path to contents.
    Add(String, Vec<u8>),
    /// Takes a path out of the map.
    Remove(String),
}

/// The message that puts a processor in front of the chain.
#[derive(Debug)]
pub struct AddProcessor(pub CmdProcessor);

/// What goes back to a client for one `exec` request: the data, then the
/// exit status, then the closing of the channel.
#[derive(Debug)]
pub struct ExecReply {
    pub data: Vec<u8>,
    pub exit_status: u32,
    pub close_channel: bool,
}

/// The state that the connections of a server share: files, command
/// history and processors.
pub struct SshHandler {
    files: OsFiles,
    command_history: Vec<String>,
    cmd_handler: BaseSshHandler,
}

/// An SSH handler as plain values.
pub struct SshView {
    /// The paths of the virtual file map, in order.
    pub paths: Seq<Seq<char>>,
    /// The contents of the files, in the order of their paths.
    pub contents: Seq<Seq<u8>>,
    /// Every command received so far, oldest first.
    pub history: Seq<Seq<char>>,
    pub chain: Seq<ProcessorView>,
}

impl View for SshHandler {
    type V = SshView;

    closed spec fn view(&self) -> SshView {
        SshView {
            paths: self.files.names(),
            contents: file_contents(self.files.rows()),
            history: views(self.command_history@),
            chain: self.cmd_handler@,
        }
    }
}

impl SshView {
    /// No path occurs twice, and each path has its contents.
    pub open spec fn wf(self) -> bool {
        self.paths.no_duplicates() && self.contents.len() == self.paths.len()
    }

    /// The file map of the state.
    pub open spec fn files(self) -> FilesView {
        FilesView { paths: self.paths, contents: self.contents }
    }

    /// The state with the file map `files`.
    pub open spec fn with_files(self, files: FilesView) -> SshView {
        SshView { paths: files.paths, contents: files.contents, ..self }
    }

    /// The state after `path` was bound to `content`: a path that is in
    /// the map keeps its place, a new one goes to the end.
    pub open spec fn add_file(self, path: Seq<char>, content: Seq<u8>) -> SshView {
        self.with_files(self.files().add(path, content))
    }

    /// The state after `path` was taken out of the map.
    pub open spec fn remove_file(self, path: Seq<char>) -> SshView {
        self.with_files(self.files().remove(path))
    }

    /// The state after `processor` was put in front of the chain.
    pub open spec fn add_processor(self, processor: ProcessorView) -> SshView {
        SshView { chain: seq![processor] + self.chain, ..self }
    }

    /// The state after the command `cmd` was received.
    pub open spec fn record(self, cmd: Seq<char>) -> SshView {
        SshView { history: self.history.push(cmd), ..self }
    }

    /// What is sent back for the command `cmd`.
    pub open spec fn response(self, cmd: Seq<char>) -> Seq<char> {
        respond(self.chain, cmd, self.paths)
    }

    /// The state after the command `cmd` was received and answered: the
    /// command is in the history, and the file map is the one that the
    /// answering processor handed back.
    pub open spec fn after_command(self, cmd: Seq<char>) -> SshView {
        self.record(cmd).with_files(files_after(self.chain, cmd, self.files()))
    }
}

impl SshHandler {
    /// No path occurs twice.
    pub closed spec fn wf(&self) -> bool {
        self.files.wf()
    }

    /// A well-formed handler has a well-formed view.
    pub proof fn lemma_view_wf(&self)
        requires
            self.wf(),
        ensures
            self@.wf(),
    {
    }

    /// The shared state of a server.
    pub fn new(files: OsFiles, command_history: Vec<String>, cmd_handler: BaseSshHandler) -> (handler:
        Self)
        requires
            files.wf(),
        ensures
            handler.wf(),
            handler@.paths == files.names(),
            handler@.contents == file_contents(files.rows()),
            handler@.history == views(command_history@),
            handler@.chain == cmd_handler@,
    {
        SshHandler { files, command_history, cmd_handler }
    }

    /// Any password is accepted.
    pub fn auth_password(&self, user: &str, password: &str) -> (accepted: bool)
        ensures
            accepted,
    {
        true
    }

    /// Any public key is accepted.
    pub fn auth_publickey(&self, user: &str, public_key: &[u8]) -> (accepted: bool)
        ensures
            accepted,
    {
        true
    }

    /// A session is opened for whoever asks.
    pub fn channel_open_session(&self) -> (opened: bool)
        ensures
            opened,
    {
        true
    }

    /// Number of commands received so far.
    pub fn history_len(&self) -> (n: usize)
        ensures
            n == self@.history.len(),
    {
        self.command_history.len()
    }

    /// The command that was received as number `i`.
    pub fn history_at(&self, i: usize) -> (cmd: &String)
        requires
            i < self@.history.len(),
        ensures
            cmd@ == self@.history[i as int],
    {
        &self.command_history[i]
    }

    /// Number of files in the map.
    pub fn file_count(&self) -> (n: usize)
        ensures
            n == self@.paths.len(),
    {
        self.files.len()
    }

    /// Applies an operation to the virtual file map.
    pub fn file_operation(&mut self, operation: SshFileOperation) -> (done: SshResultVoid)
        requires
            old(self).wf(),
        ensures
            final(self).wf(),
            done is Ok,
            final(self)@ == match operation {
                SshFileOperation::Add(path, content) => old(self)@.add_file(path@, content@),
                SshFileOperation::Remove(path) => old(self)@.remove_file(path@),
            },
    {
        match operation {
            SshFileOperation::Add(path, content) => {
                add_file(&mut self.files, path, content);
            },
            SshFileOperation::Remove(path) => {
                remove_file(&mut self.files, path.as_str());
            },
        }
        Ok(())
    }

    /// Puts a processor in front of the chain.
    pub fn add_processor(&mut self, message: AddProcessor) -> (done: SshResultVoid)
        requires
            old(self).wf(),
        ensures
            final(self).wf(),
            done is Ok,
            final(self)@ == old(self)@.add_processor(message.0@),
    {
        let _ = self.cmd_handler.add_processor(message.0);
        Ok(())
    }

    /// Handles the command `cmd`: it goes into the history, the chain
    /// answers it, and the file map becomes the one that the answering
    /// processor handed back. The exit status is always 0 and the channel
    /// is closed behind the answer.
    pub fn exec_command(&mut self, cmd: String) -> (reply: ExecReply)
        requires
            old(self).wf(),
        ensures
            final(self).wf(),
            final(self)@ == old(self)@.after_command(cmd@),
            reply.data@ == vstd::utf8::encode_utf8(old(self)@.response(cmd@)),
            reply.exit_status == 0,
            reply.close_channel,
    {
        let text = self.cmd_handler.handle_command(cmd.as_str(), &mut self.files);
        let ghost held = self.command_history@;
        self.command_history.push(cmd);
        proof {
            assert(views(self.command_history@) =~= views(held).push(cmd@));
        }
        ExecReply { data: text.as_str().as_bytes_vec(), exit_status: 0, close_channel: true }
    }

    /// Handles an `exec` request. The bytes of the request are read as
    /// text by lossy UTF-8 decoding, so that a request in UTF-8 is the
    /// command that it encodes.
    pub fn exec_request(&mut self, data: &[u8]) -> (reply: ExecReply)
        requires
            old(self).wf(),
        ensures
            final(self).wf(),
            final(self)@ == old(self)@.after_command(lossy_text(data@)),
            reply.data@ == vstd::utf8::encode_utf8(old(self)@.response(lossy_text(data@))),
            vstd::utf8::valid_utf8(data@) ==> final(self)@ == old(self)@.after_command(
                vstd::utf8::decode_utf8(data@),
            ) && reply.data@ == vstd::utf8::encode_utf8(
                old(self)@.response(vstd::utf8::decode_utf8(data@)),
            ),
            reply.exit_status == 0,
            reply.close_channel,
    {
        let cmd = utf8_lossy(data);
        self.exec_command(cmd)
    }
}

/// Seconds for which a rejected login is delayed.
pub const AUTH_REJECTION_SECS: u64 = 1;

/// What the driver of an SSH server is to do.
#[derive(Debug, Clone, Copy, PartialEq, Eq, Structural)]
pub enum SshAction {
    /// Nothing: the message did not apply.
    Nothing,
    /// Bind the address of the server and accept connections.
    Listen,
    /// Stop accepting connections.
    Close,
}

/// The SSH server actor: where it listens, and the state that its
/// connections share.
pub struct SshServer {
    key: String,
    host: String,
    port: u16,
    handler: SshHandler,
    listening: bool,
}

/// The address `host:port` as text.
pub open spec fn address_text(host: Seq<char>, port: u16) -> Seq<char> {
    host + ":"@ + decimal_digits(port as nat)
}

impl SshServer {
    /// See [`SshHandler::wf`].
    pub closed spec fn wf(&self) -> bool {
        self.handler.wf()
    }

    /// The shared state, as plain values.
    pub closed spec fn state(&self) -> SshView {
        self.handler@
    }

    /// The key of the actor.
    pub closed spec fn key_text(&self) -> Seq<char> {
        self.key@
    }

    /// The host to listen on.
    pub closed spec fn host_text(&self) -> Seq<char> {
        self.host@
    }

    /// The port to listen on.
    pub closed spec fn port_number(&self) -> u16 {
        self.port
    }

    /// Whether the server accepts connections.
    pub closed spec fn is_listening(&self) -> bool {
        self.listening
    }

    /// A server with no files, no history and the given processors, or the
    /// built-in ones.
    pub fn new(key: &str, host: &str, port: u16, cmd_processors: Option<Vec<CmdProcessor>>) -> (server:
        Self)
        ensures
            server.wf(),
            server.key_text() == key@,
            server.host_text() == host@,
            server.port_number() == port,
            !server.is_listening(),
            server.state().paths.len() == 0,
            server.state().contents.len() == 0,
            server.state().history.len() == 0,
            server.state().chain == match cmd_processors {
                Some(chain) => chain_view(chain@),
                None => seq![ProcessorView::ListFiles, ProcessorView::Banner],
            },
    {
        let files: OsFiles = Registry::new();
        let history: Vec<String> = Vec::new();
        let handler = SshHandler::new(files, history, BaseSshHandler::from(cmd_processors));
        SshServer {
            key: String::from_str(key),
            host: String::from_str(host),
            port,
            handler,
            listening: false,
        }
    }

    /// The key of the actor.
    pub fn key(&self) -> (key: &String)
        ensures
            key@ == self.key_text(),
    {
        &self.key
    }

    /// The address to bind: host, a colon and the port in decimal.
    pub fn bind_address(&self) -> (address: String)
        ensures
            address@ == address_text(self.host_text(), self.port_number()),
    {
        let port = decimal(self.port as u64);
        concat3(self.host.as_str(), ":", port.as_str())
    }

    /// The state that the connections share.
    pub fn handler(&self) -> (handler: &SshHandler)
        ensures
            handler@ == self.state(),
            handler.wf() == self.wf(),
    {
        &self.handler
    }

    /// Takes a service message. A start makes the server listen unless
    /// it listens already, and a stop closes it if it listens; neither
    /// fails, and neither touches files, history or processors.
    pub fn handle(&mut self, message: ActorServiceMessage) -> (action: SshAction)
        requires
            old(self).wf(),
        ensures
            final(self).wf(),
            final(self).state() == old(self).state(),
            final(self).key_text() == old(self).key_text(),
            final(self).host_text() == old(self).host_text(),
            final(self).port_number() == old(self).port_number(),
            final(self).is_listening() == (message == ActorServiceMessage::Start),
            action == match message {
                ActorServiceMessage::Start => if old(self).is_listening() {
                    SshAction::Nothing
                } else {
                    SshAction::Listen
                },
                ActorServiceMessage::Stop => if old(self).is_listening() {
                    SshAction::Close
                } else {
                    SshAction::Nothing
                },
            },
    {
        match message {
            ActorServiceMessage::Start => {
                if self.listening {
                    SshAction::Nothing
                } else {
                    self.listening = true;
                    SshAction::Listen
                }
            },
            ActorServiceMessage::Stop => {
                if self.listening {
                    self.listening = false;
                    SshAction::Close
                } else {
                    SshAction::Nothing
                }
            },
        }
    }

    /// Applies an operation to the virtual file map.
    pub fn handle_file_operation(&mut self, operation: SshFileOperation) -> (done: SshResultVoid)
        requires
            old(self).wf(),
        ensures
            final(self).wf(),
            done is Ok,
            final(self).state() == match operation {
                SshFileOperation::Add(path, content) => old(self).state().add_file(path@, content@),
                SshFileOperation::Remove(path) => old(self).state().remove_file(path@),
            },
            final(self).key_text() == old(self).key_text(),
            final(self).host_text() == old(self).host_text(),
            final(self).port_number() == old(self).port_number(),
            final(self).is_listening() == old(self).is_listening(),
    {
        self.handler.file_operation(operation)
    }

    /// Puts a processor in front of the chain.
    pub fn handle_add_processor(&mut self, message: AddProcessor) -> (done: SshResultVoid)
        requires
            old(self).wf(),
        ensures
            final(self).wf(),
            done is Ok,
            final(self).state() == old(self).state().add_processor(message.0@),
            final(self).key_text() == old(self).key_text(),
            final(self).host_text() == old(self).host_text(),
            final(self).port_number() == old(self).port_number(),
            final(self).is_listening() == old(self).is_listening(),
    {
        self.handler.add_processor(message)
    }

    /// Handles an `exec` request of a connection.
    pub fn exec_request(&mut self, data: &[u8]) -> (reply: ExecReply)
        requires
            old(self).wf(),
        ensures
            final(self).wf(),
            final(self).state() == old(self).state().after_command(lossy_text(data@)),
            reply.data@ == vstd::utf8::encode_utf8(
                old(self).state().response(lossy_text(data@)),
            ),
            vstd::utf8::valid_utf8(data@) ==> final(self).state() == old(self).state().after_command(
                vstd::utf8::decode_utf8(data@),
            ) && reply.data@ == vstd::utf8::encode_utf8(
                old(self).state().response(vstd::utf8::decode_utf8(data@)),
            ),
            reply.exit_status == 0,
            reply.close_channel,
            final(self).key_text() == old(self).key_text(),
            final(self).host_text() == old(self).host_text(),
            final(self).port_number() == old(self).port_number(),
            final(self).is_listening() == old(self).is_listening(),
    {
        self.handler.exec_request(data)
    }
}

impl Default for SshServer {
    fn default() -> (server: Self)
        ensures
            server.wf(),
            server.key_text() == "ssh_server"@,
            server.host_text() == "127.0.0.1"@,
            server.port_number() == 2222,
            server.state().paths.len() == 0,
            server.state().history.len() == 0,
            server.state().chain == seq![ProcessorView::ListFiles, ProcessorView::Banner],
    {
        SshServer::new("ssh_server", "127.0.0.1", 2222, None)
    }
}

/// Each of the joined parts stands in the joined text.
pub proof fn lemma_part_in_joined(parts: Seq<Seq<char>>, sep: Seq<char>, i: int)
    requires
        0 <= i < parts.len(),
    ensures
        contains_text(joined(parts, sep), parts[i]),
    decreases parts.len(),
{
    let whole = joined(parts, sep);
    if parts.len() == 1 {
        assert(whole.subrange(0, whole.len() as int) =~= parts[0]);
        assert(occurs_at(whole, parts[i], 0));
    } else {
        let front = joined(parts.drop_last(), sep);
        if i == parts.len() - 1 {
            let at: int = (front.len() + sep.len()) as int;
            assert(whole.subrange(at, at + parts[i].len()) =~= parts[i]);
            assert(occurs_at(whole, parts[i], at));
        } else {
            lemma_part_in_joined(parts.drop_last(), sep, i);
            let at = choose|at: int| occurs_at(front, parts.drop_last()[i], at);
            assert(whole.subrange(at, at + parts[i].len()) =~= front.subrange(
                at,
                at + parts[i].len(),
            ));
            assert(occurs_at(whole, parts[i], at));
        }
    }
}

/// A file that was added is listed: its path is among the paths, and it
/// stands in the answer to `ls`.
pub proof fn lemma_added_file_is_listed(state: SshView, path: Seq<char>, content: Seq<u8>)
    requires
        state.wf(),
    ensures
        state.add_file(path, content).wf(),
        state.add_file(path, content).paths.contains(path),
        contains_text(listing(state.add_file(path, content).paths), path),
        answer(ProcessorView::ListFiles, "ls"@, state.add_file(path, content).paths) == Some(
            listing(state.add_file(path, content).paths),
        ),
{
    let after = state.add_file(path, content);
    if state.paths.contains(path) {
        assert(after.paths == state.paths);
    } else {
        assert(after.paths[state.paths.len() as int] == path);
        assert forall|a: int, b: int|
            0 <= a < after.paths.len() && 0 <= b < after.paths.len() && a != b implies after.paths[a]
            != after.paths[b] by {
            if a < state.paths.len() && b < state.paths.len() {
            } else if a < state.paths.len() {
                assert(state.paths.contains(state.paths[a]));
            } else {
                assert(state.paths.contains(state.paths[b]));
            }
        }
    }
    let i = after.paths.index_of(path);
    lemma_part_in_joined(after.paths, "\n"@, i);
    let lines = joined(after.paths, "\n"@);
    let at = choose|at: int| occurs_at(lines, path, at);
    if lines.len() == 0 {
        assert(path.len() == 0);
        assert(listing(after.paths).subrange(0, 0) =~= path);
        assert(occurs_at(listing(after.paths), path, 0));
    } else {
        assert(listing(after.paths).subrange(at, at + path.len()) =~= lines.subrange(
            at,
            at + path.len(),
        ));
        assert(occurs_at(listing(after.paths), path, at));
    }
    lemma_ls_is_trimmed();
}

/// The command `ls` has no white space at its ends.
proof fn lemma_ls_is_trimmed()
    ensures
        trimmed("ls"@) == "ls"@,
{
    reveal_strlit("ls");
    let s = "ls"@;
    crate::text::lemma_leading_space(s, 0);
    crate::text::lemma_trailing_space(s, 0);
    assert(s.subrange(0, 2) =~= s);
}

/// A file that was removed is not listed: its path is not among the paths
/// that `ls` prints, and the other paths keep their order.
pub proof fn lemma_removed_file_is_not_listed(state: SshView, path: Seq<char>)
    requires
        state.wf(),
    ensures
        state.remove_file(path).wf(),
        !state.remove_file(path).paths.contains(path),
        answer(ProcessorView::ListFiles, "ls"@, state.remove_file(path).paths) == Some(
            listing(state.remove_file(path).paths),
        ),
{
    let after = state.remove_file(path);
    if state.paths.contains(path) {
        let i = state.paths.index_of(path);
        assert forall|a: int, b: int|
            0 <= a < after.paths.len() && 0 <= b < after.paths.len() && a != b implies after.paths[a]
            != after.paths[b] by {
            let a0 = if a < i { a } else { a + 1 };
            let b0 = if b < i { b } else { b + 1 };
            assert(after.paths[a] == state.paths[a0]);
            assert(after.paths[b] == state.paths[b0]);
        }
        if after.paths.contains(path) {
            let k = after.paths.index_of(path);
            let k0 = if k < i { k } else { k + 1 };
            assert(after.paths[k] == state.paths[k0]);
            assert(state.paths[i] == path);
        }
    }
    lemma_ls_is_trimmed();
}

} // verus!
