//! The session registry and broadcast coordinator: which viewer receives which
//! push event, on connection, on a change of the document, and on shutdown.
//! The transport, the file reads and the timers are the caller's.
use vstd::prelude::*;
use crate::markdown::{renders, MarkdownProcessor};
use crate::text::{chars_of, decimal, decimal_of, push_range, push_str};

verus! {

#[verifier::external_type_specification]
#[verifier::external_body]
pub struct ExAnyhowError(anyhow::Error);

/// The file name of a path: its last component, unless that is `..`.
pub uninterp spec fn file_name_of(path: Seq<char>) -> Option<Seq<char>>;

/// Relies on `std::path::Path::file_name`: the final component of `path`.
#[verifier::external_body]
fn path_file_name(path: &str) -> (r: Option<String>)
    ensures
        match r {
            Some(n) => file_name_of(path@) == Some(n@),
            None => file_name_of(path@) is None,
        },
{
    std::path::Path::new(path).file_name().and_then(|n| n.to_str()).map(String::from)
}

/// The title shown for a document: its file name, else `Untitled`.
pub open spec fn title_spec(path: Seq<char>) -> Seq<char> {
    match file_name_of(path) {
        Some(n) => n,
        None => "Untitled"@,
    }
}

/// The title for the document at `path`.
pub fn title_of(path: &str) -> (r: String)
    ensures
        r@ == title_spec(path@),
{
    match path_file_name(path) {
        Some(n) => n,
        None => String::from_str("Untitled"),
    }
}

/// An event pushed to a viewer.
pub enum PushEvent {
    /// The document's file name, once per connection.
    Title { title: String },
    /// The rendered document.
    Content { html: String },
    /// The server is about to exit.
    Kill,
}

impl PushEvent {
    /// The event's name on the push channel.
    pub fn name(&self) -> (r: &'static str)
        ensures
            r@ == match self {
                PushEvent::Title { .. } => "title"@,
                PushEvent::Content { .. } => "content"@,
                PushEvent::Kill => "kill"@,
            },
    {
        match self {
            PushEvent::Title { .. } => "title",
            PushEvent::Content { .. } => "content",
            PushEvent::Kill => "kill",
        }
    }
}

/// The HTML carried by a content event.
pub open spec fn content_of(e: PushEvent) -> Option<Seq<char>> {
    match e {
        PushEvent::Content { html } => Some(html@),
        _ => None,
    }
}

/// The title carried by a title event.
pub open spec fn title_in(e: PushEvent) -> Option<Seq<char>> {
    match e {
        PushEvent::Title { title } => Some(title@),
        _ => None,
    }
}

/// One event for one viewer.
pub struct Delivery {
    pub viewer: u64,
    pub event: PushEvent,
}

/// The shared state of a running server: the renderer, the active document
/// and the connected viewers, each registered once.
pub struct AppState {
    pub markdown_processor: MarkdownProcessor,
    current_file: Option<String>,
    viewers: Vec<u64>,
}

impl AppState {
    /// The active document's path.
    pub closed spec fn file(&self) -> Option<Seq<char>> {
        match self.current_file {
            Some(f) => Some(f@),
            None => None,
        }
    }

    /// The registered viewers, in order of connection.
    pub closed spec fn viewers(&self) -> Seq<u64> {
        self.viewers@
    }

    pub open spec fn wf(&self) -> bool {
        self.viewers().no_duplicates()
    }

    /// No document and no viewer yet.
    pub fn new() -> (r: AppState)
        ensures
            r.wf(),
            r.file() is None,
            r.viewers() == Seq::<u64>::empty(),
    {
        AppState { markdown_processor: MarkdownProcessor::new(), current_file: None, viewers: Vec::new() }
    }

    /// Makes `path` the active document.
    pub fn set_current_file(&mut self, path: String)
        requires
            old(self).wf(),
        ensures
            final(self).wf(),
            final(self).file() == Some(path@),
            final(self).viewers() == old(self).viewers(),
    {
        self.current_file = Some(path);
    }

    /// The active document's path.
    pub fn current_file(&self) -> (r: Option<String>)
        ensures
            match r {
                Some(f) => self.file() == Some(f@),
                None => self.file() is None,
            },
    {
        match &self.current_file {
            Some(f) => Some(f.clone()),
            None => None,
        }
    }

    /// The registered viewers, in order of connection.
    pub fn viewer_list(&self) -> (r: Vec<u64>)
        ensures
            r@ == self.viewers(),
    {
        self.viewers.clone()
    }

    fn position(&self, viewer: u64) -> (r: Option<usize>)
        ensures
            match r {
                Some(i) => i < self.viewers().len() && self.viewers()[i as int] == viewer,
                None => !self.viewers().contains(viewer),
            },
    {
        let mut i: usize = 0;
        while i < self.viewers.len()
            invariant
                i <= self.viewers@.len(),
                forall|j: int| 0 <= j < i ==> self.viewers@[j] != viewer,
            decreases self.viewers.len() - i,
        {
            if self.viewers[i] == viewer {
                return Some(i);
            }
            i = i + 1;
        }
        None
    }

    /// Whether `viewer` is registered.
    pub fn is_registered(&self, viewer: u64) -> (r: bool)
        ensures
            r == self.viewers().contains(viewer),
    {
        self.position(viewer).is_some()
    }

    /// Registers a viewer that connects; it is owed the title when a document
    /// is active.
    pub fn register(&mut self, viewer: u64) -> (r: Option<Delivery>)
        requires
            old(self).wf(),
        ensures
            final(self).wf(),
            final(self).file() == old(self).file(),
            final(self).viewers() == if old(self).viewers().contains(viewer) {
                old(self).viewers()
            } else {
                old(self).viewers().push(viewer)
            },
            match old(self).file() {
                None => r is None,
                Some(f) => r is Some && r->0.viewer == viewer && title_in(r->0.event) == Some(title_spec(f)),
            },
    {
        if !self.is_registered(viewer) {
            self.viewers.push(viewer);
            assert forall|i: int, j: int| 0 <= i < j < self.viewers@.len()
                implies self.viewers@[i] != self.viewers@[j] by {
                if j == self.viewers@.len() - 1 {
                    assert(old(self).viewers@[i] == self.viewers@[i]);
                }
            }
        }
        match &self.current_file {
            Some(f) => Some(Delivery { viewer, event: PushEvent::Title { title: title_of(f.as_str()) } }),
            None => None,
        }
    }

    /// Removes a viewer that disconnected; nothing is delivered to it after.
    pub fn unregister(&mut self, viewer: u64)
        requires
            old(self).wf(),
        ensures
            final(self).wf(),
            final(self).file() == old(self).file(),
            !final(self).viewers().contains(viewer),
            !old(self).viewers().contains(viewer) ==> final(self).viewers() == old(self).viewers(),
            old(self).viewers().contains(viewer) ==> exists|i: int|
                0 <= i < old(self).viewers().len() && old(self).viewers()[i] == viewer
                && final(self).viewers() == old(self).viewers().remove(i),
    {
        match self.position(viewer) {
            Some(i) => {
                let ghost before = self.viewers@;
                self.viewers.remove(i);
                assert(self.viewers@ == before.remove(i as int));
                assert forall|a: int, b: int| 0 <= a < b < self.viewers@.len()
                    implies self.viewers@[a] != self.viewers@[b] by {
                    let a0 = if a < i { a } else { a + 1 };
                    let b0 = if b < i { b } else { b + 1 };
                    assert(self.viewers@[a] == before[a0]);
                    assert(self.viewers@[b] == before[b0]);
                }
                assert forall|k: int| 0 <= k < self.viewers@.len() implies self.viewers@[k] != viewer by {
                    let k0 = if k < i { k } else { k + 1 };
                    assert(self.viewers@[k] == before[k0]);
                }
            },
            None => {},
        }
    }

    /// Whether a change notification for `changed` concerns the active
    /// document.
    pub fn should_reload(&self, changed: &str) -> (r: bool)
        ensures
            r == (self.file() == Some(changed@)),
    {
        match &self.current_file {
            Some(f) => *f == String::from_str(changed),
            None => false,
        }
    }

    /// The snapshot owed to a viewer that just connected, from the document's
    /// text as read then; nothing when the read failed.
    pub fn snapshot(&self, viewer: u64, content: Option<String>) -> (r: Option<Delivery>)
        ensures
            match content {
                None => r is None,
                Some(text) => r is Some && r->0.viewer == viewer && content_of(r->0.event) is Some
                    && renders(text@, content_of(r->0.event)->0),
            },
    {
        match content {
            Some(text) => {
                let html = self.markdown_processor.render(text.as_str());
                Some(Delivery { viewer, event: PushEvent::Content { html } })
            },
            None => None,
        }
    }

    /// The same HTML for every registered viewer, in order of connection.
    pub fn fan_out(&self, html: &String) -> (r: Vec<Delivery>)
        ensures
            r@.len() == self.viewers().len(),
            forall|i: int| 0 <= i < r@.len() ==> (#[trigger] r@[i]).viewer == self.viewers()[i]
                && content_of(r@[i].event) == Some(html@),
    {
        let mut r: Vec<Delivery> = Vec::new();
        let mut i: usize = 0;
        while i < self.viewers.len()
            invariant
                i <= self.viewers@.len(),
                r@.len() == i,
                forall|k: int| 0 <= k < i ==> (#[trigger] r@[k]).viewer == self.viewers@[k]
                    && content_of(r@[k].event) == Some(html@),
            decreases self.viewers.len() - i,
        {
            r.push(Delivery { viewer: self.viewers[i], event: PushEvent::Content { html: html.clone() } });
            i = i + 1;
        }
        r
    }

    /// The deliveries for a change notification on `changed`, given the
    /// document's text as read after it: the freshly rendered document for
    /// every viewer when the change concerns the active document and the read
    /// succeeded, else nothing.
    pub fn on_change(&self, changed: &str, content: Option<String>) -> (r: Vec<Delivery>)
        ensures
            !(self.file() == Some(changed@) && content is Some) ==> r@.len() == 0,
            self.file() == Some(changed@) && content is Some ==> {
                &&& r@.len() == self.viewers().len()
                &&& exists|h: Seq<char>| renders(content->0@, h) && forall|i: int| 0 <= i < r@.len() ==>
                    (#[trigger] r@[i]).viewer == self.viewers()[i] && content_of(r@[i].event) == Some(h)
            },
    {
        if !self.should_reload(changed) {
            return Vec::new();
        }
        match content {
            Some(text) => {
                let html = self.markdown_processor.render(text.as_str());
                self.fan_out(&html)
            },
            None => Vec::new(),
        }
    }

    /// A kill event for every registered viewer, in order of connection.
    pub fn kill_all(&self) -> (r: Vec<Delivery>)
        ensures
            r@.len() == self.viewers().len(),
            forall|i: int| 0 <= i < r@.len() ==> (#[trigger] r@[i]).viewer == self.viewers()[i]
                && r@[i].event is Kill,
    {
        let mut r: Vec<Delivery> = Vec::new();
        let mut i: usize = 0;
        while i < self.viewers.len()
            invariant
                i <= self.viewers@.len(),
                r@.len() == i,
                forall|k: int| 0 <= k < i ==> (#[trigger] r@[k]).viewer == self.viewers@[k]
                    && r@[k].event is Kill,
            decreases self.viewers.len() - i,
        {
            r.push(Delivery { viewer: self.viewers[i], event: PushEvent::Kill });
            i = i + 1;
        }
        r
    }
}

/// A preview server for one port, with its shared state.
pub struct LivedownServer {
    pub port: u16,
    pub state: AppState,
}

impl LivedownServer {
    /// A server for `port`, with no document and no viewer.
    pub fn new(port: u16) -> (r: Result<LivedownServer, anyhow::Error>)
        ensures
            r is Ok,
            r is Ok ==> r->Ok_0.port == port && r->Ok_0.state.wf() && r->Ok_0.state.file() is None
                && r->Ok_0.state.viewers() == Seq::<u64>::empty(),
    {
        Ok(LivedownServer { port, state: AppState::new() })
    }
}

/// The address of the server on `port`.
pub fn server_url(port: u16) -> (r: String)
    ensures
        r@ == "http://localhost:"@ + decimal_of(port as nat),
{
    let mut r = String::from_str("http://localhost:");
    let n = decimal(port as usize);
    push_str(&mut r, n.as_str());
    r
}

/// `s` without its leading slashes.
pub open spec fn strip_slashes(s: Seq<char>) -> Seq<char>
    decreases s.len(),
{
    if s.len() > 0 && s[0] == '/' {
        strip_slashes(s.drop_first())
    } else {
        s
    }
}

/// The name of the bundled asset that a request path asks for.
pub fn asset_path(path: &str) -> (r: String)
    ensures
        r@ == strip_slashes(path@),
{
    let cs = chars_of(path);
    let mut i: usize = 0;
    assert(cs@.subrange(0, cs@.len() as int) =~= cs@);
    while i < cs.len() && cs[i] == '/'
        invariant
            i <= cs@.len(),
            strip_slashes(cs@.subrange(i as int, cs@.len() as int)) == strip_slashes(cs@),
        decreases cs.len() - i,
    {
        assert(cs@.subrange(i as int, cs@.len() as int).drop_first() =~= cs@.subrange(i + 1, cs@.len() as int));
        i = i + 1;
    }
    let mut r = String::new();
    push_range(&mut r, &cs, i, cs.len());
    assert(strip_slashes(cs@.subrange(i as int, cs@.len() as int)) == cs@.subrange(i as int, cs@.len() as int));
    r
}

} // verus!
