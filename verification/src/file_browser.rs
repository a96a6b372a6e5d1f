//! The SFTP file browser of one session.
//!
//! The browser never talks to the server itself. Where the server has to be asked, a function
//! returns the request to send, and its counterpart takes the reply.
use vstd::prelude::*;

pub use crate::listing::{permissions_string, FileEntry, FileEntryView, RemoteEntry, RemoteEntryView};
pub use crate::paths::split_goto_input;

use crate::listing::{listable_entries, sort_entries, suggestible_entries};
use crate::paths::{child_path, completed_path, parent_path};
use crate::size_text::{decimal_text, size_in_kb};
use crate::text::{chars_of, decode_lossy};

verus! {

/// Maximum file size we'll attempt to read (100 KB).
pub const MAX_FILE_SIZE: u64 = 102400;

/// Timeout for directory listing operations, in seconds.
pub const DIR_TIMEOUT_SECS: u64 = 5;

/// Timeout for goto-mode suggestion fetches, in seconds.
pub const GOTO_TIMEOUT_SECS: u64 = 2;

/// Timeout for file read operations, in seconds.
pub const FILE_TIMEOUT_SECS: u64 = 3;

/// State of the SFTP file browser for one session.
pub struct FileBrowserState {
    pub current_path: String,
    pub entries: Vec<FileEntry>,
    pub selected: usize,
    pub loading: bool,
    pub error: Option<String>,
    /// Content of the currently viewed file (if any).
    pub file_content: Option<String>,
    /// Name of the file currently being viewed.
    pub viewing_file: Option<String>,
    /// What is typed in search mode (`/`).
    pub search_query: String,
    pub search_mode: bool,
    /// What is typed in goto mode (`g`).
    pub goto_path: String,
    pub goto_mode: bool,
    pub goto_suggestions: Vec<FileEntry>,
    pub goto_selected: usize,
}

/// A `FileBrowserState` in specifications.
pub struct BrowserView {
    pub current_path: Seq<char>,
    pub entries: Seq<FileEntryView>,
    pub selected: usize,
    pub loading: bool,
    pub error: Option<Seq<char>>,
    pub file_content: Option<Seq<char>>,
    pub viewing_file: Option<Seq<char>>,
    pub search_query: Seq<char>,
    pub search_mode: bool,
    pub goto_path: Seq<char>,
    pub goto_mode: bool,
    pub goto_suggestions: Seq<FileEntryView>,
    pub goto_selected: usize,
}

/// An optional text as specifications see it.
pub open spec fn optional_text(text: Option<String>) -> Option<Seq<char>> {
    match text {
        Some(text) => Some(text@),
        None => None,
    }
}

impl View for FileBrowserState {
    type V = BrowserView;

    open spec fn view(&self) -> BrowserView {
        BrowserView {
            current_path: self.current_path@,
            entries: crate::listing::entry_views(self.entries@),
            selected: self.selected,
            loading: self.loading,
            error: optional_text(self.error),
            file_content: optional_text(self.file_content),
            viewing_file: optional_text(self.viewing_file),
            search_query: self.search_query@,
            search_mode: self.search_mode,
            goto_path: self.goto_path@,
            goto_mode: self.goto_mode,
            goto_suggestions: crate::listing::entry_views(self.goto_suggestions@),
            goto_selected: self.goto_selected,
        }
    }
}

/// A request to list a directory within a time limit.
pub struct ListRequest {
    pub path: String,
    pub timeout_secs: u64,
}

/// A `ListRequest` in specifications.
pub struct ListRequestView {
    pub path: Seq<char>,
    pub timeout_secs: u64,
}

impl View for ListRequest {
    type V = ListRequestView;

    open spec fn view(&self) -> ListRequestView {
        ListRequestView { path: self.path@, timeout_secs: self.timeout_secs }
    }
}

/// A request to list a directory for suggestions, and the prefix to look for in it.
pub struct GotoRequest {
    pub list: ListRequest,
    pub prefix: String,
}

/// A `GotoRequest` in specifications.
pub struct GotoRequestView {
    pub list: ListRequestView,
    pub prefix: Seq<char>,
}

impl View for GotoRequest {
    type V = GotoRequestView;

    open spec fn view(&self) -> GotoRequestView {
        GotoRequestView { list: self.list@, prefix: self.prefix@ }
    }
}

/// A request to read a file within a time limit, and the name to show it under.
pub struct ReadRequest {
    pub path: String,
    pub name: String,
    pub timeout_secs: u64,
}

/// A `ReadRequest` in specifications.
pub struct ReadRequestView {
    pub path: Seq<char>,
    pub name: Seq<char>,
    pub timeout_secs: u64,
}

impl View for ReadRequest {
    type V = ReadRequestView;

    open spec fn view(&self) -> ReadRequestView {
        ReadRequestView { path: self.path@, name: self.name@, timeout_secs: self.timeout_secs }
    }
}

/// What came of a request to list a directory.
pub enum ListReply {
    Entries(Vec<RemoteEntry>),
    /// The server's reason.
    Failed(String),
    TimedOut,
}

/// A `ListReply` in specifications.
pub enum ListReplyView {
    Entries(Seq<RemoteEntryView>),
    Failed(Seq<char>),
    TimedOut,
}

impl View for ListReply {
    type V = ListReplyView;

    open spec fn view(&self) -> ListReplyView {
        match *self {
            ListReply::Entries(remotes) => ListReplyView::Entries(
                crate::listing::remote_views(remotes@),
            ),
            ListReply::Failed(reason) => ListReplyView::Failed(reason@),
            ListReply::TimedOut => ListReplyView::TimedOut,
        }
    }
}

/// What came of a request to read a file.
pub enum ReadReply {
    Content(Vec<u8>),
    /// The server's reason.
    Failed(String),
    TimedOut,
}

/// A `ReadReply` in specifications.
pub enum ReadReplyView {
    Content(Seq<u8>),
    Failed(Seq<char>),
    TimedOut,
}

impl View for ReadReply {
    type V = ReadReplyView;

    open spec fn view(&self) -> ReadReplyView {
        match *self {
            ReadReply::Content(bytes) => ReadReplyView::Content(bytes@),
            ReadReply::Failed(reason) => ReadReplyView::Failed(reason@),
            ReadReply::TimedOut => ReadReplyView::TimedOut,
        }
    }
}

/// An optional request to list as specifications see it.
pub open spec fn list_request_view(request: Option<ListRequest>) -> Option<ListRequestView> {
    match request {
        Some(request) => Some(request@),
        None => None,
    }
}

/// An optional request to read as specifications see it.
pub open spec fn read_request_view(request: Option<ReadRequest>) -> Option<ReadRequestView> {
    match request {
        Some(request) => Some(request@),
        None => None,
    }
}

/// The message for a file that is too large to read.
pub open spec fn too_large_message(size: u64) -> Seq<char> {
    "File too large ("@ + crate::size_text::kb_text(size as nat) + " KB, max "@
        + crate::size_text::decimal((MAX_FILE_SIZE / 1024) as nat) + " KB)"@
}

/// What is shown of a file's content: at most its first `MAX_FILE_SIZE` bytes.
pub open spec fn capped(bytes: Seq<u8>) -> Seq<u8> {
    if bytes.len() <= MAX_FILE_SIZE {
        bytes
    } else {
        bytes.take(MAX_FILE_SIZE as int)
    }
}

impl BrowserView {
    /// A browser that has just been opened in `home_dir`.
    pub open spec fn opened(home_dir: Seq<char>) -> BrowserView {
        BrowserView {
            current_path: home_dir,
            entries: Seq::empty(),
            selected: 0,
            loading: false,
            error: None,
            file_content: None,
            viewing_file: None,
            search_query: Seq::empty(),
            search_mode: false,
            goto_path: Seq::empty(),
            goto_mode: false,
            goto_suggestions: Seq::empty(),
            goto_selected: 0,
        }
    }

    /// After a request for the server has been made.
    pub open spec fn waiting(self) -> BrowserView {
        BrowserView { loading: true, error: None, ..self }
    }

    /// The request for the listing of the current path.
    pub open spec fn list_request(self) -> ListRequestView {
        ListRequestView { path: self.current_path, timeout_secs: DIR_TIMEOUT_SECS }
    }

    /// After a reply to the request for a listing.
    pub open spec fn listed(self, reply: ListReplyView) -> BrowserView {
        match reply {
            ListReplyView::Entries(remotes) => BrowserView {
                entries: crate::listing::listing(remotes),
                selected: 0,
                loading: false,
                ..self
            },
            ListReplyView::Failed(reason) => BrowserView {
                error: Some("SFTP error: "@ + reason),
                entries: Seq::empty(),
                loading: false,
                ..self
            },
            ListReplyView::TimedOut => BrowserView {
                error: Some("⏳ Directory listing timed out"@),
                loading: false,
                ..self
            },
        }
    }

    /// Whether there is a directory at `index`.
    pub open spec fn has_dir(self, index: int) -> bool {
        0 <= index < self.entries.len() && self.entries[index].is_dir
    }

    /// Whether there is an entry at `index` that is no directory.
    pub open spec fn has_file(self, index: int) -> bool {
        0 <= index < self.entries.len() && !self.entries[index].is_dir
    }

    /// After entering the entry at `index`.
    pub open spec fn entered(self, index: int) -> BrowserView {
        if self.has_dir(index) {
            BrowserView {
                current_path: crate::paths::child(self.current_path, self.entries[index].name),
                ..self.waiting()
            }
        } else {
            self
        }
    }

    /// After going up from the current path.
    pub open spec fn gone_up(self) -> BrowserView {
        if self.current_path == crate::paths::root() {
            self
        } else {
            BrowserView { current_path: crate::paths::parent(self.current_path), ..self.waiting() }
        }
    }

    /// After asking for the content of the entry at `index`.
    pub open spec fn reading(self, index: int) -> BrowserView {
        if !self.has_file(index) {
            self
        } else if self.entries[index].size > MAX_FILE_SIZE {
            BrowserView { error: Some(too_large_message(self.entries[index].size)), ..self }
        } else {
            self.waiting()
        }
    }

    /// The request for the content of the entry at `index`, if it may be read.
    pub open spec fn read_request(self, index: int) -> Option<ReadRequestView> {
        if self.has_file(index) && self.entries[index].size <= MAX_FILE_SIZE {
            Some(
                ReadRequestView {
                    path: crate::paths::child(self.current_path, self.entries[index].name),
                    name: self.entries[index].name,
                    timeout_secs: FILE_TIMEOUT_SECS,
                },
            )
        } else {
            None
        }
    }

    /// With `text` shown as the content of the file `name`.
    pub open spec fn showing(self, name: Seq<char>, text: Seq<char>) -> BrowserView {
        BrowserView {
            file_content: Some(text),
            viewing_file: Some(name),
            loading: false,
            ..self
        }
    }

    /// After a reply to the request for the content of the file `name`.
    pub open spec fn read(self, name: Seq<char>, reply: ReadReplyView) -> BrowserView {
        match reply {
            ReadReplyView::Content(bytes) => self.showing(
                name,
                crate::text::lossy_text(capped(bytes)),
            ),
            ReadReplyView::Failed(reason) => BrowserView {
                error: Some("Failed to read file: "@ + reason),
                loading: false,
                ..self
            },
            ReadReplyView::TimedOut => BrowserView {
                error: Some("⏳ File read timed out"@),
                loading: false,
                ..self
            },
        }
    }

    /// Without a viewed file.
    pub open spec fn closed_file(self) -> BrowserView {
        BrowserView { file_content: None, viewing_file: None, ..self }
    }

    /// With search mode on or off, and nothing typed in it.
    pub open spec fn search(self, on: bool) -> BrowserView {
        BrowserView { search_mode: on, search_query: Seq::empty(), ..self }
    }

    /// With goto mode on or off, and nothing typed or suggested in it.
    pub open spec fn goto(self, on: bool) -> BrowserView {
        BrowserView { goto_mode: on, goto_path: Seq::empty(), ..self.suggesting(Seq::empty()) }
    }

    /// The request for the suggestions for what is typed in goto mode.
    pub open spec fn goto_request(self) -> GotoRequestView {
        let (dir, prefix) = crate::paths::goto_parts(self.goto_path, self.current_path);
        GotoRequestView {
            list: ListRequestView { path: dir, timeout_secs: GOTO_TIMEOUT_SECS },
            prefix,
        }
    }

    /// With these suggestions, the first selected.
    pub open spec fn suggesting(self, suggestions: Seq<FileEntryView>) -> BrowserView {
        BrowserView { goto_suggestions: suggestions, goto_selected: 0, ..self }
    }

    /// After a reply to the request for suggestions for `prefix`.
    pub open spec fn suggested(self, prefix: Seq<char>, reply: ListReplyView) -> BrowserView {
        match reply {
            ListReplyView::Entries(remotes) => self.suggesting(
                crate::listing::suggestions(remotes, prefix),
            ),
            ListReplyView::Failed(_) => self.suggesting(Seq::empty()),
            ListReplyView::TimedOut => self.suggesting(Seq::empty()),
        }
    }

    /// After completing the selected suggestion.
    pub open spec fn autocompleted(self) -> BrowserView {
        if self.goto_selected < self.goto_suggestions.len() {
            let entry = self.goto_suggestions[self.goto_selected as int];
            let dir = crate::paths::goto_parts(self.goto_path, self.current_path).0;
            BrowserView {
                goto_path: crate::paths::completion(dir, entry.name, entry.is_dir),
                ..self.suggesting(Seq::empty())
            }
        } else {
            self
        }
    }
}

/// No entries are no views.
proof fn lemma_no_entries()
    ensures
        crate::listing::entry_views(Seq::empty()) == Seq::<FileEntryView>::empty(),
{
    assert(crate::listing::entry_views(Seq::empty()) =~= Seq::<FileEntryView>::empty());
}

impl FileBrowserState {
    /// Create a new file browser starting at the given home directory.
    pub fn new(home_dir: String) -> (state: Self)
        ensures
            state@ == BrowserView::opened(home_dir@),
    {
        proof {
            lemma_no_entries();
        }
        FileBrowserState {
            current_path: home_dir,
            entries: Vec::new(),
            selected: 0,
            loading: false,
            error: None,
            file_content: None,
            viewing_file: None,
            search_query: String::new(),
            search_mode: false,
            goto_path: String::new(),
            goto_mode: false,
            goto_suggestions: Vec::new(),
            goto_selected: 0,
        }
    }

    /// Clear file viewing state and return to directory listing.
    pub fn close_file(&mut self)
        ensures
            final(self)@ == old(self)@.closed_file(),
    {
        self.file_content = None;
        self.viewing_file = None;
    }

    /// Enter search mode.
    pub fn enter_search(&mut self)
        ensures
            final(self)@ == old(self)@.search(true),
    {
        self.search_mode = true;
        self.search_query.clear();
    }

    /// Exit search mode.
    pub fn exit_search(&mut self)
        ensures
            final(self)@ == old(self)@.search(false),
    {
        self.search_mode = false;
        self.search_query.clear();
    }

    /// Enter goto mode.
    pub fn enter_goto(&mut self)
        ensures
            final(self)@ == old(self)@.goto(true),
    {
        self.goto_mode = true;
        self.goto_path.clear();
        self.clear_suggestions();
    }

    /// Exit goto mode.
    pub fn exit_goto(&mut self)
        ensures
            final(self)@ == old(self)@.goto(false),
    {
        self.goto_mode = false;
        self.goto_path.clear();
        self.clear_suggestions();
    }

    fn clear_suggestions(&mut self)
        ensures
            final(self)@ == old(self)@.suggesting(Seq::empty()),
    {
        proof {
            lemma_no_entries();
        }
        self.goto_suggestions.clear();
        self.goto_selected = 0;
    }

    /// Autocomplete the currently selected goto suggestion: the typed prefix gives way to the
    /// full name.
    pub fn autocomplete_selected(&mut self)
        ensures
            final(self)@ == old(self)@.autocompleted(),
    {
        if self.goto_selected < self.goto_suggestions.len() {
            let (dir, _prefix) = split_goto_input(
                self.goto_path.as_str(),
                self.current_path.as_str(),
            );
            let entry = &self.goto_suggestions[self.goto_selected];
            let completed = completed_path(dir.as_str(), entry.name.as_str(), entry.is_dir);
            self.goto_path = completed;
            self.clear_suggestions();
        }
    }
}

/// Refresh the directory listing for the current path: the returned request is to be sent, and
/// its reply handed to `complete_listing`.
pub fn refresh_listing(state: &mut FileBrowserState) -> (request: ListRequest)
    ensures
        final(state)@ == old(state)@.waiting(),
        request@ == old(state)@.list_request(),
{
    state.loading = true;
    state.error = None;
    ListRequest { path: state.current_path.clone(), timeout_secs: DIR_TIMEOUT_SECS }
}

/// Takes the reply to the request of `refresh_listing`.
pub fn complete_listing(state: &mut FileBrowserState, reply: ListReply)
    ensures
        final(state)@ == old(state)@.listed(reply@),
        match reply@ {
            ListReplyView::Entries(remotes) => crate::listing::all_ascii(
                crate::listing::remote_names(remotes),
            ) ==> final(state)@.entries == crate::listing::ascii_listing(remotes),
            _ => true,
        },
{
    match reply {
        ListReply::Entries(remotes) => {
            proof {
                let all = crate::listing::remote_views(remotes@);
                if crate::listing::all_ascii(crate::listing::remote_names(all)) {
                    crate::listing::lemma_shown_names_ascii(all, crate::listing::listable());
                }
            }
            state.entries = sort_entries(listable_entries(remotes));
            state.selected = 0;
        },
        ListReply::Failed(reason) => {
            let mut message = "SFTP error: ".to_owned();
            message.append(reason.as_str());
            state.error = Some(message);
            state.entries.clear();
            proof {
                lemma_no_entries();
            }
        },
        ListReply::TimedOut => {
            state.error = Some("⏳ Directory listing timed out".to_owned());
        },
    }
    state.loading = false;
}

/// Navigate into the directory at the given index. The returned request is one of
/// `refresh_listing`; there is none if there is no directory at the index.
pub fn enter_directory(state: &mut FileBrowserState, index: usize) -> (request: Option<ListRequest>)
    ensures
        final(state)@ == old(state)@.entered(index as int),
        list_request_view(request) == if old(state)@.has_dir(index as int) {
            Some(final(state)@.list_request())
        } else {
            None
        },
{
    if index >= state.entries.len() {
        return None;
    }
    let entry = &state.entries[index];
    if !entry.is_dir {
        return None;
    }
    let new_path = child_path(state.current_path.as_str(), entry.name.as_str());
    state.current_path = new_path;
    Some(refresh_listing(state))
}

/// Navigate up to the parent directory. The returned request is one of `refresh_listing`; there
/// is none at the root.
pub fn go_up(state: &mut FileBrowserState) -> (request: Option<ListRequest>)
    ensures
        final(state)@ == old(state)@.gone_up(),
        list_request_view(request) == if old(state)@.current_path == crate::paths::root() {
            None
        } else {
            Some(final(state)@.list_request())
        },
{
    let chars = chars_of(state.current_path.as_str());
    if chars.len() == 1 && chars[0] == '/' {
        assert(state@.current_path =~= crate::paths::root());
        return None;
    }
    let above = parent_path(state.current_path.as_str());
    state.current_path = above;
    Some(refresh_listing(state))
}

/// The message for a file that is too large to read.
fn too_large_text(size: u64) -> (message: String)
    ensures
        message@ == too_large_message(size),
{
    let mut message = "File too large (".to_owned();
    message.append(size_in_kb(size).as_str());
    message.append(" KB, max ");
    message.append(decimal_text(MAX_FILE_SIZE / 1024).as_str());
    message.append(" KB)");
    message
}

/// Read the file at the given index. Caps content at `MAX_FILE_SIZE`: a file listed as larger is
/// refused with an error, and `complete_read` cuts off what a reply holds beyond it. The returned
/// request is to be sent, and its reply handed to `complete_read`.
pub fn read_file(state: &mut FileBrowserState, index: usize) -> (request: Option<ReadRequest>)
    ensures
        final(state)@ == old(state)@.reading(index as int),
        read_request_view(request) == old(state)@.read_request(index as int),
{
    if index >= state.entries.len() {
        return None;
    }
    let entry = &state.entries[index];
    if entry.is_dir {
        return None;
    }
    let path = child_path(state.current_path.as_str(), entry.name.as_str());
    let name = entry.name.clone();
    let size: u64 = entry.size;
    if size > MAX_FILE_SIZE {
        state.error = Some(too_large_text(size));
        return None;
    }
    state.loading = true;
    state.error = None;
    Some(ReadRequest { path, name, timeout_secs: FILE_TIMEOUT_SECS })
}

/// Shows `text` as the content of the file `name`.
pub fn show_file(state: &mut FileBrowserState, name: String, text: String)
    ensures
        final(state)@ == old(state)@.showing(name@, text@),
{
    state.file_content = Some(text);
    state.viewing_file = Some(name);
    state.loading = false;
}

/// Takes the reply to the request of `read_file` for the file `name`. At most the first
/// `MAX_FILE_SIZE` bytes of the content are shown, also where the file turns out longer than the
/// size it was listed with.
pub fn complete_read(state: &mut FileBrowserState, name: String, reply: ReadReply)
    ensures
        final(state)@ == old(state)@.read(name@, reply@),
        match reply {
            ReadReply::Content(bytes) => vstd::utf8::valid_utf8(capped(bytes@)) ==>
                final(state)@.file_content == Some(vstd::utf8::decode_utf8(capped(bytes@))),
            _ => true,
        },
{
    match reply {
        ReadReply::Content(bytes) => {
            let mut kept = bytes;
            kept.truncate(MAX_FILE_SIZE as usize);
            assert(kept@ =~= capped(bytes@));
            let text = decode_lossy(kept.as_slice());
            show_file(state, name, text);
        },
        ReadReply::Failed(reason) => {
            let mut message = "Failed to read file: ".to_owned();
            message.append(reason.as_str());
            state.error = Some(message);
            state.loading = false;
        },
        ReadReply::TimedOut => {
            state.error = Some("⏳ File read timed out".to_owned());
            state.loading = false;
        },
    }
}

/// Fetch goto suggestions for what is typed in goto mode: the returned request is to be sent,
/// and its reply handed to `complete_goto` with the prefix.
pub fn fetch_goto_suggestions(state: &FileBrowserState) -> (request: GotoRequest)
    ensures
        request@ == state@.goto_request(),
{
    let (dir, prefix) = split_goto_input(state.goto_path.as_str(), state.current_path.as_str());
    GotoRequest { list: ListRequest { path: dir, timeout_secs: GOTO_TIMEOUT_SECS }, prefix }
}

/// Takes the reply to the request of `fetch_goto_suggestions` for `prefix`. An empty prefix has the
/// whole directory suggested. Any failure clears the suggestions silently.
pub fn complete_goto(state: &mut FileBrowserState, prefix: &str, reply: ListReply)
    ensures
        final(state)@ == old(state)@.suggested(prefix@, reply@),
        match reply@ {
            ListReplyView::Entries(remotes) => {
                &&& prefix@.len() == 0 ==> final(state)@.goto_suggestions
                    == crate::listing::listing(remotes)
                &&& vstd::utf8::is_ascii_chars(prefix@) && crate::listing::all_ascii(
                    crate::listing::remote_names(remotes),
                ) ==> final(state)@.goto_suggestions == crate::listing::ascii_suggestions(
                    remotes,
                    prefix@,
                )
            },
            _ => true,
        },
{
    match reply {
        ListReply::Entries(remotes) => {
            let lower_prefix = prefix.to_lowercase();
            proof {
                let all = crate::listing::remote_views(remotes@);
                if prefix@.len() == 0 {
                    crate::listing::law_empty_prefix_suggests_all(all, prefix@);
                }
                if crate::listing::all_ascii(crate::listing::remote_names(all)) {
                    crate::listing::lemma_shown_names_ascii(
                        all,
                        crate::listing::suggestible(lower_prefix@),
                    );
                }
            }
            state.goto_suggestions = sort_entries(
                suggestible_entries(remotes, lower_prefix.as_str()),
            );
            state.goto_selected = 0;
        },
        ListReply::Failed(_) => state.clear_suggestions(),
        ListReply::TimedOut => state.clear_suggestions(),
    }
}

/// Whatever the server replies, the browser is no longer loading.
pub proof fn law_replies_end_loading(
    state: BrowserView,
    listing: ListReplyView,
    name: Seq<char>,
    content: ReadReplyView,
)
    ensures
        !state.listed(listing).loading,
        !state.read(name, content).loading,
{
}

/// A refresh leaves the path alone. If it succeeds, the entries reported are listed, the first is
/// selected and no error is shown; if it fails, no entries are left and an error is shown; if it
/// times out, the entries stay and an error is shown.
pub proof fn law_refresh_outcomes(
    state: BrowserView,
    remotes: Seq<RemoteEntryView>,
    reason: Seq<char>,
)
    ensures
        ({
            let done = state.waiting().listed(ListReplyView::Entries(remotes));
            let failed = state.waiting().listed(ListReplyView::Failed(reason));
            let late = state.waiting().listed(ListReplyView::TimedOut);
            &&& done.current_path == state.current_path && done.entries == crate::listing::listing(
                remotes,
            ) && done.selected == 0 && done.error is None
            &&& failed.current_path == state.current_path && failed.entries.len() == 0
                && failed.error is Some
            &&& late.current_path == state.current_path && late.entries == state.entries
                && late.selected == state.selected && late.error is Some
        }),
{
}

/// Going up after entering a directory leads back to where the browser was, whatever the server
/// replied in between.
pub proof fn law_go_up_undoes_enter_directory(
    state: BrowserView,
    index: int,
    reply: ListReplyView,
)
    requires
        state.has_dir(index),
        crate::paths::is_plain_name(state.entries[index].name),
    ensures
        state.entered(index).listed(reply).gone_up().current_path == if crate::paths::trimmed(
            state.current_path,
        ).len() == 0 {
            crate::paths::root()
        } else {
            crate::paths::trimmed(state.current_path)
        },
{
    let name = state.entries[index].name;
    let path = crate::paths::child(state.current_path, name);
    crate::paths::law_up_undoes_enter(state.current_path, name);
    assert(path.len() == crate::paths::trimmed(state.current_path).len() + 1 + name.len());
}

/// Only a file of at most `MAX_FILE_SIZE` bytes is ever asked for. Asking changes nothing but the
/// error and whether the browser is loading, and it is loading only if a file is asked for.
pub proof fn law_only_small_files_are_read(state: BrowserView, index: int)
    ensures
        state.read_request(index) is Some <==> state.has_file(index) && state.entries[index].size
            <= MAX_FILE_SIZE,
        state.reading(index) == (BrowserView {
            error: state.reading(index).error,
            loading: state.reading(index).loading,
            ..state
        }),
        state.read_request(index) is None ==> state.reading(index).loading == state.loading,
{
}

/// The content shown of a file comes from at most `MAX_FILE_SIZE` of its bytes, the first ones,
/// however long the reply is. A file within the limit is shown whole.
pub proof fn law_content_is_capped(state: BrowserView, name: Seq<char>, bytes: Seq<u8>)
    ensures
        state.read(name, ReadReplyView::Content(bytes)).file_content == Some(
            crate::text::lossy_text(capped(bytes)),
        ),
        capped(bytes).len() <= MAX_FILE_SIZE,
        capped(bytes).is_prefix_of(bytes),
        bytes.len() <= MAX_FILE_SIZE ==> capped(bytes) == bytes,
        bytes.len() > MAX_FILE_SIZE ==> capped(bytes).len() == MAX_FILE_SIZE,
{
    assert(capped(bytes) =~= bytes.subrange(0, capped(bytes).len() as int));
}

/// Closing a file undoes showing it.
pub proof fn law_close_undoes_show(state: BrowserView, name: Seq<char>, text: Seq<char>)
    requires
        state.file_content is None,
        state.viewing_file is None,
        !state.loading,
    ensures
        state.showing(name, text).closed_file() == state,
{
}

/// Leaving search mode leaves nothing of it behind, whatever was typed.
pub proof fn law_exit_undoes_enter_search(state: BrowserView, query: Seq<char>)
    requires
        state.search(false) == state,
    ensures
        (BrowserView { search_query: query, ..state.search(true) }).search(false) == state,
{
    assert(state.search_query == state.search(false).search_query);
}

/// Leaving goto mode leaves nothing of it behind, whatever was typed, suggested and selected.
pub proof fn law_exit_undoes_enter_goto(
    state: BrowserView,
    typed: Seq<char>,
    suggestions: Seq<FileEntryView>,
    selected: usize,
)
    requires
        state.goto(false) == state,
    ensures
        (BrowserView {
            goto_path: typed,
            goto_suggestions: suggestions,
            goto_selected: selected,
            ..state.goto(true)
        }).goto(false) == state,
{
    assert(state.goto_path == state.goto(false).goto_path);
}

/// A completed suggestion is what is looked for next: a directory is listed whole, and of any
/// other entry the name is looked for in the directory it was suggested in, up to a slash at that
/// directory's end. Completing again changes nothing.
pub proof fn law_autocomplete_leads_on(state: BrowserView)
    requires
        state.goto_selected < state.goto_suggestions.len(),
        !state.goto_suggestions[state.goto_selected as int].name.contains('/'),
    ensures
        ({
            let entry = state.goto_suggestions[state.goto_selected as int];
            let dir = state.goto_request().list.path;
            let next = state.autocompleted().goto_request();
            if entry.is_dir {
                &&& next.list.path == crate::paths::completion(dir, entry.name, false)
                &&& next.prefix == Seq::<char>::empty()
            } else {
                &&& next.list.path == if dir.len() == 0 || dir == crate::paths::root() {
                    crate::paths::root()
                } else if dir.last() == '/' {
                    dir.drop_last()
                } else {
                    dir
                }
                &&& next.prefix == entry.name
            }
        }),
        state.autocompleted().autocompleted() == state.autocompleted(),
{
    let entry = state.goto_suggestions[state.goto_selected as int];
    let dir = state.goto_request().list.path;
    crate::paths::law_completed_directory_is_listed(dir, entry.name, state.current_path);
    crate::paths::law_completion_splits_into_its_parts(dir, entry.name, state.current_path);
}

/// Specifications see every field of a browser as it is.
pub proof fn law_browser_view_holds_every_field(state: FileBrowserState)
    ensures
        state@.current_path == state.current_path@,
        state@.entries == crate::listing::entry_views(state.entries@),
        state@.selected == state.selected,
        state@.loading == state.loading,
        state@.error is Some <==> state.error is Some,
        state.error is Some ==> state@.error->0 == state.error->0@,
        state@.file_content is Some <==> state.file_content is Some,
        state.file_content is Some ==> state@.file_content->0 == state.file_content->0@,
        state@.viewing_file is Some <==> state.viewing_file is Some,
        state.viewing_file is Some ==> state@.viewing_file->0 == state.viewing_file->0@,
        state@.search_query == state.search_query@,
        state@.search_mode == state.search_mode,
        state@.goto_path == state.goto_path@,
        state@.goto_mode == state.goto_mode,
        state@.goto_suggestions == crate::listing::entry_views(state.goto_suggestions@),
        state@.goto_selected == state.goto_selected,
{
}

/// Specifications see requests as they are.
pub proof fn law_request_views_hold_every_field(
    list: ListRequest,
    goto: GotoRequest,
    read: ReadRequest,
)
    ensures
        list@.path == list.path@,
        list@.timeout_secs == list.timeout_secs,
        goto@.list.path == goto.list.path@,
        goto@.list.timeout_secs == goto.list.timeout_secs,
        goto@.prefix == goto.prefix@,
        read@.path == read.path@,
        read@.name == read.name@,
        read@.timeout_secs == read.timeout_secs,
        list_request_view(Some(list)) == Some(list@),
        list_request_view(None) is None,
        read_request_view(Some(read)) == Some(read@),
        read_request_view(None) is None,
{
}

/// Specifications see replies as they are.
pub proof fn law_reply_views_hold_what_came(
    remotes: Vec<RemoteEntry>,
    bytes: Vec<u8>,
    reason: String,
)
    ensures
        ListReply::Entries(remotes)@ == ListReplyView::Entries(
            crate::listing::remote_views(remotes@),
        ),
        ListReply::Failed(reason)@ == ListReplyView::Failed(reason@),
        ListReply::TimedOut@ == ListReplyView::TimedOut,
        ReadReply::Content(bytes)@ == ReadReplyView::Content(bytes@),
        ReadReply::Failed(reason)@ == ReadReplyView::Failed(reason@),
        ReadReply::TimedOut@ == ReadReplyView::TimedOut,
{
}

/// A browser opens in the home directory, with nothing listed, shown, typed or waited for.
pub proof fn law_browser_opens_empty(home_dir: Seq<char>)
    ensures
        ({
            let state = BrowserView::opened(home_dir);
            &&& state.current_path == home_dir
            &&& state.entries.len() == 0
            &&& state.selected == 0
            &&& !state.loading
            &&& state.error is None
            &&& state.file_content is None
            &&& state.viewing_file is None
            &&& state.search_query.len() == 0
            &&& !state.search_mode
            &&& state.goto_path.len() == 0
            &&& !state.goto_mode
            &&& state.goto_suggestions.len() == 0
            &&& state.goto_selected == 0
        }),
{
}

/// A refresh asks for the current path within five seconds. Until the reply the browser is loading
/// and shows no error, and nothing else changes.
pub proof fn law_refresh_asks_for_the_current_path(state: BrowserView)
    ensures
        state.list_request().path == state.current_path,
        state.list_request().timeout_secs == 5,
        state.waiting().loading,
        state.waiting().error is None,
        state == (BrowserView { loading: state.loading, error: state.error, ..state.waiting() }),
{
}

/// What a reply to a refresh changes: a listing replaces the entries and selects the first; a
/// failure removes them and is reported with its reason; a timeout is reported. Nothing else
/// changes, but that the browser is no longer loading.
pub proof fn law_listing_replies_change_nothing_else(
    state: BrowserView,
    remotes: Seq<RemoteEntryView>,
    reason: Seq<char>,
)
    ensures
        ({
            let done = state.listed(ListReplyView::Entries(remotes));
            &&& done.entries == crate::listing::listing(remotes)
            &&& done.selected == 0
            &&& !done.loading
            &&& state == (BrowserView {
                entries: state.entries,
                selected: state.selected,
                loading: state.loading,
                ..done
            })
        }),
        ({
            let failed = state.listed(ListReplyView::Failed(reason));
            &&& failed.entries.len() == 0
            &&& failed.error == Some("SFTP error: "@ + reason)
            &&& !failed.loading
            &&& state == (BrowserView {
                entries: state.entries,
                error: state.error,
                loading: state.loading,
                ..failed
            })
        }),
        ({
            let late = state.listed(ListReplyView::TimedOut);
            &&& late.error == Some("⏳ Directory listing timed out"@)
            &&& !late.loading
            &&& state == (BrowserView { error: state.error, loading: state.loading, ..late })
        }),
{
}

/// Entering works on directories that exist, and on nothing else. It leads to the path of the
/// current directory, without slashes at its end, a slash and the whole name of the entered one,
/// and waits for its listing. Nothing else changes.
pub proof fn law_entering_appends_the_name(state: BrowserView, index: int)
    ensures
        state.has_dir(index) <==> 0 <= index < state.entries.len() && state.entries[index].is_dir,
        !state.has_dir(index) ==> state.entered(index) == state,
        state.has_dir(index) ==> {
            let (old_path, name) = (state.current_path, state.entries[index].name);
            let inside = state.entered(index);
            let path = inside.current_path;
            let kept = path.len() - name.len() - 1;
            &&& 0 <= kept <= old_path.len()
            &&& path.skip(kept + 1) == name
            &&& path[kept] == '/'
            &&& path.take(kept) == old_path.take(kept)
            &&& forall|i: int| kept <= i < old_path.len() ==> old_path[i] == '/'
            &&& kept > 0 ==> old_path[kept - 1] != '/'
            &&& inside.loading
            &&& inside.error is None
            &&& state == (BrowserView {
                current_path: old_path,
                loading: state.loading,
                error: state.error,
                ..inside
            })
        },
{
    if state.has_dir(index) {
        crate::paths::law_child_path_ends_with_the_name(
            state.current_path,
            state.entries[index].name,
        );
    }
}

/// Going up does nothing at the root. Anywhere else it waits for the listing of the parent, and
/// nothing else changes. The parent of `above/name` is `above`, or the root if that is empty, and
/// that of a path with no slash but at its end is the root.
pub proof fn law_going_up_drops_the_last_name(
    state: BrowserView,
    above: Seq<char>,
    name: Seq<char>,
    slashes: Seq<char>,
)
    requires
        name.len() > 0,
        !name.contains('/'),
        forall|i: int| 0 <= i < slashes.len() ==> slashes[i] == '/',
    ensures
        state.current_path == seq!['/'] ==> state.gone_up() == state,
        state.current_path != seq!['/'] ==> {
            let up = state.gone_up();
            &&& up.loading
            &&& up.error is None
            &&& state == (BrowserView {
                current_path: state.current_path,
                loading: state.loading,
                error: state.error,
                ..up
            })
        },
        state.current_path == above.push('/') + name + slashes ==> state.gone_up().current_path
            == if above.len() == 0 {
            seq!['/']
        } else {
            above
        },
        state.current_path == name + slashes ==> state.gone_up().current_path == seq!['/'],
        state.current_path == slashes ==> state.gone_up().current_path == seq!['/'],
{
    crate::paths::law_parent_drops_the_last_name(above, name, slashes);
    let path = above.push('/') + name + slashes;
    if state.current_path == crate::paths::root() {
        if state.current_path == path {
            assert(path.len() >= 2);
        }
        if state.current_path == name + slashes {
            assert((name + slashes)[0] == name[0]);
            assert(name.contains(name[0]));
        }
    }
}

/// A file that exists and is listed with at most 102400 bytes is asked for within three seconds, by
/// the path of the current directory, without slashes at its end, a slash and its whole name.
/// Nothing else is asked for. A larger file is reported instead, and changes only the error.
pub proof fn law_reading_asks_for_the_file(state: BrowserView, index: int)
    ensures
        state.has_file(index) <==> 0 <= index < state.entries.len()
            && !state.entries[index].is_dir,
        state.read_request(index) is Some <==> state.has_file(index) && state.entries[index].size
            <= 102400,
        state.read_request(index) is Some ==> {
            let (dir, name) = (state.current_path, state.entries[index].name);
            let request = state.read_request(index)->0;
            let path = request.path;
            let kept = path.len() - name.len() - 1;
            &&& request.name == name
            &&& request.timeout_secs == 3
            &&& 0 <= kept <= dir.len()
            &&& path.skip(kept + 1) == name
            &&& path[kept] == '/'
            &&& path.take(kept) == dir.take(kept)
            &&& forall|i: int| kept <= i < dir.len() ==> dir[i] == '/'
            &&& kept > 0 ==> dir[kept - 1] != '/'
            &&& state.reading(index).loading
            &&& state.reading(index).error is None
            &&& state == (BrowserView {
                loading: state.loading,
                error: state.error,
                ..state.reading(index)
            })
        },
        state.has_file(index) && state.entries[index].size > 102400 ==> {
            &&& state.reading(index).error == Some(too_large_message(state.entries[index].size))
            &&& state == (BrowserView { error: state.error, ..state.reading(index) })
        },
        !state.has_file(index) ==> state.reading(index) == state,
{
    if state.has_file(index) {
        crate::paths::law_child_path_ends_with_the_name(
            state.current_path,
            state.entries[index].name,
        );
    }
}

/// The message for a file that is too large names its size in KB and the limit of 100 KB.
pub proof fn law_too_large_message_names_size_and_limit(size: u64)
    ensures
        too_large_message(size) == "File too large ("@ + crate::size_text::kb_text(size as nat)
            + " KB, max 100 KB)"@,
{
    reveal_strlit(" KB, max ");
    reveal_strlit(" KB)");
    reveal_strlit(" KB, max 100 KB)");
    reveal_with_fuel(crate::size_text::decimal, 4);
    assert(crate::size_text::decimal(100) =~= seq!['1', '0', '0']);
    assert(" KB, max "@ + crate::size_text::decimal(100) + " KB)"@ =~= " KB, max 100 KB)"@);
    let shown = "File too large ("@ + crate::size_text::kb_text(size as nat);
    assert(too_large_message(size) =~= shown + (" KB, max "@ + crate::size_text::decimal(100)
        + " KB)"@));
}

/// What a reply to a read changes: content is shown under the file's name, from its first 102400
/// bytes; a failure is reported with its reason, and a timeout too. Nothing else changes, but that
/// the browser is no longer loading.
pub proof fn law_read_replies_change_nothing_else(
    state: BrowserView,
    name: Seq<char>,
    bytes: Seq<u8>,
    reason: Seq<char>,
)
    ensures
        ({
            let read = state.read(name, ReadReplyView::Content(bytes));
            let end = if bytes.len() < 102400 {
                bytes.len() as int
            } else {
                102400
            };
            &&& read.file_content == Some(crate::text::lossy_text(bytes.take(end)))
            &&& read.viewing_file == Some(name)
            &&& !read.loading
            &&& state == (BrowserView {
                file_content: state.file_content,
                viewing_file: state.viewing_file,
                loading: state.loading,
                ..read
            })
        }),
        ({
            let failed = state.read(name, ReadReplyView::Failed(reason));
            &&& failed.error == Some("Failed to read file: "@ + reason)
            &&& !failed.loading
            &&& state == (BrowserView { error: state.error, loading: state.loading, ..failed })
        }),
        ({
            let late = state.read(name, ReadReplyView::TimedOut);
            &&& late.error == Some("⏳ File read timed out"@)
            &&& !late.loading
            &&& state == (BrowserView { error: state.error, loading: state.loading, ..late })
        }),
{
    if bytes.len() <= MAX_FILE_SIZE {
        assert(bytes.take(bytes.len() as int) =~= bytes);
    }
}

/// A shown file has its text and its name shown, and ends loading. A closed one is not shown.
/// Neither changes anything else.
pub proof fn law_showing_and_closing_change_nothing_else(
    state: BrowserView,
    name: Seq<char>,
    text: Seq<char>,
)
    ensures
        state.showing(name, text).file_content == Some(text),
        state.showing(name, text).viewing_file == Some(name),
        !state.showing(name, text).loading,
        state == (BrowserView {
            file_content: state.file_content,
            viewing_file: state.viewing_file,
            loading: state.loading,
            ..state.showing(name, text)
        }),
        state.closed_file().file_content is None,
        state.closed_file().viewing_file is None,
        state == (BrowserView {
            file_content: state.file_content,
            viewing_file: state.viewing_file,
            ..state.closed_file()
        }),
{
}

/// Entering or leaving search mode or goto mode switches the mode and clears what was typed in it,
/// and for goto mode what was suggested. Nothing else changes.
pub proof fn law_modes_start_and_end_empty(state: BrowserView, on: bool)
    ensures
        state.search(on).search_mode == on,
        state.search(on).search_query.len() == 0,
        state == (BrowserView {
            search_mode: state.search_mode,
            search_query: state.search_query,
            ..state.search(on)
        }),
        state.goto(on).goto_mode == on,
        state.goto(on).goto_path.len() == 0,
        state.goto(on).goto_suggestions.len() == 0,
        state.goto(on).goto_selected == 0,
        state == (BrowserView {
            goto_mode: state.goto_mode,
            goto_path: state.goto_path,
            goto_suggestions: state.goto_suggestions,
            goto_selected: state.goto_selected,
            ..state.goto(on)
        }),
{
}

/// Suggestions are asked for within two seconds. Where no slash has been typed, what has been typed
/// is looked for in the current directory. Otherwise the prefix is all that follows the last slash,
/// and the directory all that stands before it, or the root if nothing does.
pub proof fn law_suggestions_are_asked_for_what_was_typed(state: BrowserView)
    ensures
        state.goto_request().list.timeout_secs == 2,
        !state.goto_path.contains('/') ==> state.goto_request().list.path == state.current_path
            && state.goto_request().prefix == state.goto_path,
        state.goto_path.contains('/') ==> {
            let (dir, prefix) = (state.goto_request().list.path, state.goto_request().prefix);
            let pos = state.goto_path.len() - prefix.len() - 1;
            &&& 0 <= pos
            &&& state.goto_path[pos] == '/'
            &&& state.goto_path.skip(pos + 1) == prefix
            &&& !prefix.contains('/')
            &&& dir == if pos == 0 {
                seq!['/']
            } else {
                state.goto_path.take(pos)
            }
        },
{
    crate::paths::law_split_is_at_the_last_slash(state.goto_path, state.current_path);
}

/// A listing for suggestions replaces the suggestions by those for the prefix, and any failure
/// removes them. The first is selected, and nothing else changes.
pub proof fn law_suggestion_replies_change_nothing_else(
    state: BrowserView,
    prefix: Seq<char>,
    remotes: Seq<RemoteEntryView>,
    reply: ListReplyView,
)
    ensures
        state.suggested(prefix, ListReplyView::Entries(remotes)).goto_suggestions
            == crate::listing::suggestions(remotes, prefix),
        !(reply is Entries) ==> state.suggested(prefix, reply).goto_suggestions.len() == 0,
        state.suggested(prefix, reply).goto_selected == 0,
        state == (BrowserView {
            goto_suggestions: state.goto_suggestions,
            goto_selected: state.goto_selected,
            ..state.suggested(prefix, reply)
        }),
{
}

/// Completing needs a selected suggestion, and does nothing without. The completed text is the
/// directory that was listed, a slash if that does not end in one, the whole name of the
/// suggestion, and one more slash for a directory. The suggestions are gone, and nothing else
/// changes.
pub proof fn law_autocomplete_names_the_suggestion(state: BrowserView)
    ensures
        state.goto_selected >= state.goto_suggestions.len() ==> state.autocompleted() == state,
        state.goto_selected < state.goto_suggestions.len() ==> {
            let entry = state.goto_suggestions[state.goto_selected as int];
            let dir = state.goto_request().list.path;
            let done = state.autocompleted();
            let end = if entry.is_dir {
                done.goto_path.len() - 1
            } else {
                done.goto_path.len() as int
            };
            let start = end - entry.name.len();
            &&& start == if dir.len() > 0 && dir.last() == '/' {
                dir.len()
            } else {
                dir.len() + 1
            }
            &&& done.goto_path.take(dir.len() as int) == dir
            &&& done.goto_path[start - 1] == '/'
            &&& done.goto_path.subrange(start, end) == entry.name
            &&& entry.is_dir ==> done.goto_path.last() == '/'
            &&& done.goto_suggestions.len() == 0
            &&& done.goto_selected == 0
            &&& state == (BrowserView {
                goto_path: state.goto_path,
                goto_suggestions: state.goto_suggestions,
                goto_selected: state.goto_selected,
                ..done
            })
        },
{
    if state.goto_selected < state.goto_suggestions.len() {
        let entry = state.goto_suggestions[state.goto_selected as int];
        crate::paths::law_completion_holds_directory_and_name(
            state.goto_request().list.path,
            entry.name,
            entry.is_dir,
        );
    }
}

} // verus!
