//! The session: conversation history, attached file contexts and client
//! configuration, with the `ask` state transition.
//!
//! The network round trip itself is the caller's job: the caller takes the
//! assembled query from [`Session::assembled_query`], performs the call,
//! and hands the outcome to [`Session::ask`], which settles the session
//! state. A failed round trip leaves the history untouched; a successful
//! one appends exactly one entry, carrying the raw question rather than
//! the assembled string.

use vstd::prelude::*;
use crate::assemble::{assemble, assemble_spec};
use crate::config::SessionConfig;
use crate::files::{
    attach_result, contains_path, expand_dir, DirEntry, FileContext, FileContextView, FileError,
    FileStore, PathProbe, sum_sizes,
};
use crate::history::{ConversationEntry, EntryView, History};

verus! {

/// Metadata the service reports alongside an answer.
pub struct Meta {
    pub id: String,
    pub node: String,
    pub ms: u64,
}

/// A reference backing an answer.
pub struct Reference {
    pub title: String,
    pub snippet: String,
    pub url: String,
}

/// The payload of an answer: its text, the references behind it, and the
/// token count spent on it.
pub struct Data {
    pub output: String,
    pub references: Vec<Reference>,
    pub tokens: u64,
}

/// A structured answer from the service.
pub struct FastGPTResponse {
    pub meta: Meta,
    pub data: Data,
}

/// How one ask round trip can fail. Every failure is terminal for that
/// one call and harmless for the session.
#[derive(Debug)]
pub enum AskError {
    /// The service could not be reached.
    Transport,
    /// The service answered with a non-success status.
    Http { status: u16, body: String },
    /// The response body could not be decoded.
    Decode,
}

/// Relies on uuid's `Uuid::new_v4` with its `Display` impl: a random
/// version-4 UUID rendered in the hyphenated form, which is always 36
/// ASCII characters. Nothing else can be promised of a random identifier.
#[verifier::external_body]
fn fresh_session_id() -> (r: String)
    ensures
        r@.len() == 36,
{
    uuid::Uuid::new_v4().to_string()
}

/// The live state of one interactive run.
pub struct Session {
    /// Opaque identifier, generated once, used only for display.
    pub id: String,
    /// Client configuration, fixed for the session's lifetime.
    pub config: SessionConfig,
    /// The append-only conversation log.
    pub history: History,
    /// The attached files, unique by path.
    pub files: FileStore,
}

impl Session {
    /// The session invariant: the file store holds no duplicate paths.
    pub open spec fn wf(&self) -> bool {
        self.files.wf()
    }

    /// A fresh session: a new identifier, empty history, no files.
    pub fn new(config: SessionConfig) -> (s: Session)
        ensures
            s.wf(),
            s.config == config,
            s.history@ == Seq::<EntryView>::empty(),
            s.files@ == Seq::<FileContextView>::empty(),
            s.id@.len() == 36,
    {
        Session { id: fresh_session_id(), config, history: History::new(), files: FileStore::new() }
    }

    /// The outbound query for a question, assembled from the attached
    /// files, the windowed history and the question itself.
    pub fn assembled_query(&self, question: &str) -> (r: String)
        ensures
            r@ == assemble_spec(self.files@, self.history@, question@),
            self.files@.len() == 0 && self.history@.len() == 0 ==> r@ == question@,
    {
        assemble(self.files.files(), self.history.entries(), question)
    }

    /// Settle one ask round trip. The caller sent the assembled query and
    /// hands in the outcome: a failure leaves the whole session unchanged
    /// but for nothing at all, a success appends exactly one history entry
    /// holding the raw question and the answer's output text. The outcome
    /// is returned unchanged for rendering.
    pub fn ask(&mut self, question: &str, outcome: Result<FastGPTResponse, AskError>) -> (r:
        Result<FastGPTResponse, AskError>)
        requires
            old(self).wf(),
        ensures
            final(self).wf(),
            final(self).id == old(self).id,
            final(self).config == old(self).config,
            final(self).files == old(self).files,
            outcome is Err ==> final(self).history@ == old(self).history@,
            outcome matches Ok(resp) ==> final(self).history@ == old(self).history@.push(
                EntryView { question: question@, answer: resp.data.output@ },
            ),
            r == outcome,
    {
        match outcome {
            Ok(resp) => {
                self.history.append(question.to_owned(), resp.data.output.clone());
                Ok(resp)
            },
            Err(e) => Err(e),
        }
    }

    /// Attach what a probe of `path` found; see the file store's own
    /// contract for the probe cases. History and configuration are never
    /// touched.
    pub fn add_file(&mut self, path: &str, probe: PathProbe) -> (r: Result<(), FileError>)
        requires
            old(self).wf(),
        ensures
            final(self).wf(),
            final(self).id == old(self).id,
            final(self).config == old(self).config,
            final(self).history == old(self).history,
            probe is Missing ==> r == Err::<(), FileError>(FileError::NotFound) && final(self).files@
                == old(self).files@,
            probe is UnreadableFile ==> r == Err::<(), FileError>(FileError::ReadError)
                && final(self).files@ == old(self).files@,
            probe matches PathProbe::TextFile(content) ==> {
                &&& final(self).files@ == attach_result(old(self).files@, path@, content@)
                &&& (r == Ok::<(), FileError>(()) <==> !contains_path(old(self).files@, path@))
                &&& (r == Err::<(), FileError>(FileError::Duplicate) <==> contains_path(
                    old(self).files@,
                    path@,
                ))
            },
            probe matches PathProbe::Directory(entries) ==> {
                let result = expand_dir(old(self).files@, entries@.map_values(|e: DirEntry| e@));
                &&& final(self).files@ == result
                &&& (result.len() > old(self).files@.len() ==> r == Ok::<(), FileError>(()))
                &&& (result.len() == old(self).files@.len() ==> r == Err::<(), FileError>(
                    FileError::NoSupportedFiles,
                ))
            },
    {
        self.files.add_file(path, probe)
    }

    /// Detach the file attached under exactly this path.
    pub fn remove_file(&mut self, path: &str) -> (r: Result<(), FileError>)
        requires
            old(self).wf(),
        ensures
            final(self).wf(),
            final(self).id == old(self).id,
            final(self).config == old(self).config,
            final(self).history == old(self).history,
            contains_path(old(self).files@, path@) ==> {
                &&& r == Ok::<(), FileError>(())
                &&& final(self).files@.len() == old(self).files@.len() - 1
                &&& !contains_path(final(self).files@, path@)
                &&& exists|i: int|
                    0 <= i < old(self).files@.len() && old(self).files@[i].path == path@
                        && final(self).files@ == old(self).files@.remove(i)
            },
            !contains_path(old(self).files@, path@) ==> r == Err::<(), FileError>(
                FileError::NotFound,
            ) && final(self).files@ == old(self).files@,
    {
        self.files.remove_file(path)
    }

    /// Detach all files.
    pub fn clear_files(&mut self)
        requires
            old(self).wf(),
        ensures
            final(self).wf(),
            final(self).id == old(self).id,
            final(self).config == old(self).config,
            final(self).history == old(self).history,
            final(self).files@ == Seq::<FileContextView>::empty(),
    {
        self.files.clear()
    }

    /// Truncate the conversation history to empty.
    pub fn clear_history(&mut self)
        requires
            old(self).wf(),
        ensures
            final(self).wf(),
            final(self).id == old(self).id,
            final(self).config == old(self).config,
            final(self).files == old(self).files,
            final(self).history@ == Seq::<EntryView>::empty(),
    {
        self.history.clear()
    }

    /// The attached files, in attach order.
    pub fn list_files(&self) -> (r: &Vec<FileContext>)
        ensures
            r@.map_values(|e: FileContext| e@) == self.files@,
    {
        self.files.files()
    }

    /// Total recorded byte size of all attached files.
    pub fn total_file_bytes(&self) -> (total: u128)
        ensures
            total as int == sum_sizes(self.files@),
    {
        self.files.total_bytes()
    }

    /// The full conversation log, oldest first.
    pub fn show_history(&self) -> (r: &Vec<ConversationEntry>)
        ensures
            r@.map_values(|e: ConversationEntry| e@) == self.history@,
    {
        self.history.entries()
    }
}

}
