//! Build progress, activity events and server status shown by the terminal
//! interface.

use vstd::prelude::*;

verus! {

/// Status of a build task.
#[derive(Clone, Copy, Debug, PartialEq, Eq, Structural)]
pub enum TaskStatus {
    Pending,
    Running,
    Done,
    Error,
}

impl Default for TaskStatus {
    fn default() -> (r: TaskStatus)
        ensures
            r == TaskStatus::Pending,
    {
        TaskStatus::Pending
    }
}

/// Progress state for a single task.
#[derive(Clone, Debug)]
pub struct TaskProgress {
    pub name: &'static str,
    pub total: usize,
    pub completed: usize,
    pub status: TaskStatus,
    pub message: Option<String>,
}

impl TaskProgress {
    /// A pending task with nothing to do yet.
    pub fn new(name: &'static str) -> (r: TaskProgress)
        ensures
            r.name@ == name@,
            r.total == 0,
            r.completed == 0,
            r.status == TaskStatus::Pending,
            r.message is None,
    {
        TaskProgress { name, total: 0, completed: 0, status: TaskStatus::Pending, message: None }
    }

    /// Starts the task with `total` steps.
    pub fn start(&mut self, total: usize)
        ensures
            final(self).total == total,
            final(self).completed == 0,
            final(self).status == TaskStatus::Running,
            final(self).name == old(self).name,
            final(self).message == old(self).message,
    {
        self.total = total;
        self.completed = 0;
        self.status = TaskStatus::Running;
    }

    /// One more step done, never beyond the total.
    pub fn advance(&mut self)
        requires
            old(self).completed < usize::MAX,
        ensures
            final(self).completed == if old(self).completed + 1 <= old(self).total {
                old(self).completed + 1
            } else {
                old(self).total as int
            },
            old(self).completed <= old(self).total ==> final(self).completed <= final(self).total,
            final(self).total == old(self).total,
            final(self).status == old(self).status,
            final(self).name == old(self).name,
            final(self).message == old(self).message,
    {
        let next = self.completed + 1;
        self.completed = if next <= self.total {
            next
        } else {
            self.total
        };
    }

    /// All steps done.
    pub fn finish(&mut self)
        ensures
            final(self).completed == old(self).total,
            final(self).total == old(self).total,
            final(self).status == TaskStatus::Done,
            final(self).name == old(self).name,
            final(self).message == old(self).message,
    {
        self.completed = self.total;
        self.status = TaskStatus::Done;
    }

    /// The task failed with `msg`.
    pub fn fail(&mut self, msg: String)
        ensures
            final(self).status == TaskStatus::Error,
            final(self).message == Some(msg),
            final(self).total == old(self).total,
            final(self).completed == old(self).completed,
            final(self).name == old(self).name,
    {
        self.status = TaskStatus::Error;
        self.message = Some(msg);
    }
}

/// All build progress state.
#[derive(Clone, Debug)]
pub struct BuildProgress {
    pub parse: TaskProgress,
    pub render: TaskProgress,
    pub sass: TaskProgress,
    pub links: TaskProgress,
    pub search: TaskProgress,
}

impl Default for BuildProgress {
    fn default() -> (r: BuildProgress)
        ensures
            r.parse.name@ == "Parsing"@,
            r.render.name@ == "Rendering"@,
            r.sass.name@ == "Sass"@,
            r.links.name@ == "Links"@,
            r.search.name@ == "Search"@,
            r.parse.status == TaskStatus::Pending && r.parse.total == 0 && r.parse.completed == 0,
            r.render.status == TaskStatus::Pending && r.render.total == 0 && r.render.completed
                == 0,
            r.sass.status == TaskStatus::Pending && r.sass.total == 0 && r.sass.completed == 0,
            r.links.status == TaskStatus::Pending && r.links.total == 0 && r.links.completed == 0,
            r.search.status == TaskStatus::Pending && r.search.total == 0 && r.search.completed
                == 0,
    {
        BuildProgress {
            parse: TaskProgress::new("Parsing"),
            render: TaskProgress::new("Rendering"),
            sass: TaskProgress::new("Sass"),
            links: TaskProgress::new("Links"),
            search: TaskProgress::new("Search"),
        }
    }
}

/// Log level for activity events.
#[derive(Clone, Copy, Debug, PartialEq, Eq, Structural)]
pub enum LogLevel {
    Trace,
    Debug,
    Info,
    Warn,
    Error,
}

impl Default for LogLevel {
    fn default() -> (r: LogLevel)
        ensures
            r == LogLevel::Info,
    {
        LogLevel::Info
    }
}

/// Kind of activity event (for display styling).
#[derive(Clone, Copy, Debug, PartialEq, Eq, Structural)]
pub enum EventKind {
    /// HTTP request (GET, POST, etc.)
    Http { status: u16 },
    /// File system change
    FileChange,
    /// Live reload triggered
    Reload,
    /// DOM patches sent
    Patch,
    /// Search index update
    Search,
    /// Server status
    Server,
    /// Build related
    Build,
    /// Generic info
    Generic,
}

impl Default for EventKind {
    fn default() -> (r: EventKind)
        ensures
            r == EventKind::Generic,
    {
        EventKind::Generic
    }
}

/// A log event with level, kind, and message.
#[derive(Clone, Debug)]
pub struct LogEvent {
    pub level: LogLevel,
    pub kind: EventKind,
    pub message: String,
}

impl LogEvent {
    /// A generic event at info level.
    pub fn info(message: String) -> (r: LogEvent)
        ensures
            r.level == LogLevel::Info,
            r.kind == EventKind::Generic,
            r.message == message,
    {
        LogEvent { level: LogLevel::Info, kind: EventKind::Generic, message }
    }

    /// A generic event at warn level.
    pub fn warn(message: String) -> (r: LogEvent)
        ensures
            r.level == LogLevel::Warn,
            r.kind == EventKind::Generic,
            r.message == message,
    {
        LogEvent { level: LogLevel::Warn, kind: EventKind::Generic, message }
    }

    /// A generic event at error level.
    pub fn error(message: String) -> (r: LogEvent)
        ensures
            r.level == LogLevel::Error,
            r.kind == EventKind::Generic,
            r.message == message,
    {
        LogEvent { level: LogLevel::Error, kind: EventKind::Generic, message }
    }

    /// The same event with another kind.
    pub fn with_kind(self, kind: EventKind) -> (r: LogEvent)
        ensures
            r.kind == kind,
            r.level == self.level,
            r.message == self.message,
    {
        let mut out = self;
        out.kind = kind;
        out
    }

    /// An HTTP request event: a warning for status 400 and above.
    pub fn http(status: u16, message: String) -> (r: LogEvent)
        ensures
            r.level == if status >= 400 {
                LogLevel::Warn
            } else {
                LogLevel::Info
            },
            r.kind == (EventKind::Http { status }),
            r.message == message,
    {
        LogEvent {
            level: if status >= 400 {
                LogLevel::Warn
            } else {
                LogLevel::Info
            },
            kind: EventKind::Http { status },
            message,
        }
    }

    /// A file change event.
    pub fn file_change(message: String) -> (r: LogEvent)
        ensures
            r.level == LogLevel::Info,
            r.kind == EventKind::FileChange,
            r.message == message,
    {
        LogEvent { level: LogLevel::Info, kind: EventKind::FileChange, message }
    }

    /// A live reload event.
    pub fn reload(message: String) -> (r: LogEvent)
        ensures
            r.level == LogLevel::Info,
            r.kind == EventKind::Reload,
            r.message == message,
    {
        LogEvent { level: LogLevel::Info, kind: EventKind::Reload, message }
    }

    /// A DOM patch event.
    pub fn patch(message: String) -> (r: LogEvent)
        ensures
            r.level == LogLevel::Info,
            r.kind == EventKind::Patch,
            r.message == message,
    {
        LogEvent { level: LogLevel::Info, kind: EventKind::Patch, message }
    }

    /// A search index event.
    pub fn search(message: String) -> (r: LogEvent)
        ensures
            r.level == LogLevel::Info,
            r.kind == EventKind::Search,
            r.message == message,
    {
        LogEvent { level: LogLevel::Info, kind: EventKind::Search, message }
    }

    /// A server status event.
    pub fn server(message: String) -> (r: LogEvent)
        ensures
            r.level == LogLevel::Info,
            r.kind == EventKind::Server,
            r.message == message,
    {
        LogEvent { level: LogLevel::Info, kind: EventKind::Server, message }
    }

    /// A build event.
    pub fn build(message: String) -> (r: LogEvent)
        ensures
            r.level == LogLevel::Info,
            r.kind == EventKind::Build,
            r.message == message,
    {
        LogEvent { level: LogLevel::Info, kind: EventKind::Build, message }
    }
}

/// Server binding mode.
#[derive(Clone, Copy, Debug, PartialEq, Eq, Structural)]
pub enum BindMode {
    /// Local only (127.0.0.1)
    Local,
    /// LAN interfaces (private IPs)
    Lan,
}

impl Default for BindMode {
    fn default() -> (r: BindMode)
        ensures
            r == BindMode::Local,
    {
        BindMode::Local
    }
}

/// Server status for the serve mode interface.
#[derive(Clone, Debug)]
pub struct ServerStatus {
    pub urls: Vec<String>,
    pub is_running: bool,
    pub bind_mode: BindMode,
    /// Query cache size in bytes
    pub salsa_cache_size: usize,
    /// Content-addressed cache size in bytes
    pub cas_cache_size: usize,
}

impl Default for ServerStatus {
    fn default() -> (r: ServerStatus)
        ensures
            r.urls@.len() == 0,
            !r.is_running,
            r.bind_mode == BindMode::Local,
            r.salsa_cache_size == 0,
            r.cas_cache_size == 0,
    {
        ServerStatus {
            urls: Vec::new(),
            is_running: false,
            bind_mode: BindMode::Local,
            salsa_cache_size: 0,
            cas_cache_size: 0,
        }
    }
}

/// Command sent from the interface to the server.
#[derive(Clone, Copy, Debug, PartialEq, Eq, Structural)]
pub enum ServerCommand {
    /// Switch to LAN mode (bind to 0.0.0.0)
    GoPublic,
    /// Switch to local mode (bind to 127.0.0.1)
    GoLocal,
}

} // verus!
