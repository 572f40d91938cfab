//! The adapter surface for key-value services that store typed values.

use crate::error::{Error, ErrorKind, ErrorView};
use crate::metadata::{EntryMode, Metadata, Timestamp};
use vstd::prelude::*;
use vstd::string::StringExecFns;

verus! {

/// The service behind an adapter.
#[derive(Clone, Copy, Debug, PartialEq, Eq, Structural)]
pub enum Scheme {
    Memory,
    Dashmap,
    MiniMoka,
    Moka,
    Custom,
}

/// The message of the error that declines a scan.
pub open spec fn unsupported_message() -> Seq<char> {
    "typed_kv adapter doesn't support this operation"@
}

/// The error with which an adapter declines `operation`.
pub fn unsupported(operation: &str) -> (e: Error)
    ensures
        e@ == (ErrorView {
            kind: ErrorKind::Unsupported,
            message: unsupported_message(),
            operation: operation@,
        }),
{
    Error::new(
        ErrorKind::Unsupported,
        "typed_kv adapter doesn't support this operation",
    ).with_operation(operation)
}

/// Whether `result` declines `operation`: it is the error that `unsupported`
/// makes for it.
pub open spec fn declined(result: Result<Vec<String>, Error>, operation: Seq<char>) -> bool {
    match result {
        Ok(_) => false,
        Err(e) => e@ == (ErrorView {
            kind: ErrorKind::Unsupported,
            message: unsupported_message(),
            operation,
        }),
    }
}

/// Whether every one of `keys` starts with `prefix`.
pub open spec fn all_start_with(keys: Seq<String>, prefix: Seq<char>) -> bool {
    forall|i: int| 0 <= i < keys.len() ==> prefix.is_prefix_of(#[trigger] keys[i]@)
}

/// A key-value service that stores values together with their metadata.
///
/// Listing keys is optional. An adapter that lists them says so in `scans`
/// and overrides `blocking_scan`; every other adapter declines the call.
pub trait Adapter {
    /// Whether this adapter lists keys. It does not, unless it says so.
    open spec fn scans(&self) -> bool {
        false
    }

    /// The scheme, name and capabilities of this adapter.
    fn info(&self) -> Info;

    /// The value stored under `path`, if there is one.
    fn blocking_get(&self, path: &str) -> Result<Option<Value>, Error>;

    /// Stores `value` under `path`.
    fn blocking_set(&self, path: &str, value: Value) -> Result<(), Error>;

    /// Removes what is stored under `path`.
    fn blocking_delete(&self, path: &str) -> Result<(), Error>;

    /// The keys that start with `path`.
    ///
    /// An adapter that does not list keys declines: the result is the
    /// unsupported-operation error, with this operation's name. Where keys
    /// come back, each of them starts with `path`.
    fn blocking_scan(&self, path: &str) -> (r: Result<Vec<String>, Error>)
        ensures
            !self.scans() ==> declined(r, "typed_kv::Adapter::blocking_scan"@),
            r matches Ok(keys) ==> all_start_with(keys@, path@),
    {
        let _ = path;
        Err(unsupported("typed_kv::Adapter::blocking_scan"))
    }
}

/// The current time, read from the system clock.
///
/// Calls `chrono::Utc::now` and takes the seconds and the nanoseconds of its
/// result. Nothing is claimed of the value: it is whatever the clock says.
/// `Utc::now` panics where the clock stands before 1970.
#[verifier::external_body]
fn utc_now() -> (t: Timestamp) {
    let now = chrono::Utc::now();
    Timestamp { secs: now.timestamp(), nanos: now.timestamp_subsec_nanos() }
}

/// A value as an adapter stores it: the content with its metadata.
pub struct Value {
    /// Metadata of this value.
    pub metadata: Metadata,
    /// The content of this value.
    pub value: Vec<u8>,
}

impl Value {
    /// The value that stands for a directory last modified at `now`: no
    /// content, and a content length of zero.
    pub fn new_dir_at(now: Timestamp) -> (v: Value)
        ensures
            v.metadata == (Metadata {
                mode: EntryMode::DIR,
                content_length: Some(0),
                last_modified: Some(now),
            }),
            v.value@ == Seq::<u8>::empty(),
    {
        Value {
            metadata: Metadata::new(EntryMode::DIR).with_content_length(0).with_last_modified(now),
            value: Vec::new(),
        }
    }

    /// The value that stands for a directory, last modified now.
    pub fn new_dir() -> (v: Value)
        ensures
            v.metadata.mode == EntryMode::DIR,
            v.metadata.content_length == Some(0u64),
            v.metadata.last_modified is Some,
            v.value@ == Seq::<u8>::empty(),
    {
        Value::new_dir_at(utc_now())
    }

    /// The size of this value in memory: that of the metadata plus the
    /// content's length.
    pub fn size(&self) -> (n: usize)
        requires
            vstd::layout::size_of::<Metadata>() + self.value@.len() <= usize::MAX,
        ensures
            n == vstd::layout::size_of::<Metadata>() + self.value@.len(),
    {
        core::mem::size_of::<Metadata>() + self.value.len()
    }
}

/// Which operations a service offers natively.
#[derive(Clone, Copy, PartialEq, Eq, Structural)]
pub struct Capability {
    /// Whether get is native.
    pub get: bool,
    /// Whether set is native.
    pub set: bool,
    /// Whether delete is native.
    pub delete: bool,
    /// Whether scan is native.
    pub scan: bool,
}

/// `parts`, with `sep` between each two neighbours.
pub open spec fn join(parts: Seq<Seq<char>>, sep: Seq<char>) -> Seq<char>
    decreases parts.len(),
{
    if parts.len() == 0 {
        Seq::empty()
    } else if parts.len() == 1 {
        parts[0]
    } else {
        join(parts.drop_last(), sep) + sep + parts.last()
    }
}

/// `name` alone if `on`, nothing otherwise.
pub open spec fn name_if(on: bool, name: Seq<char>) -> Seq<Seq<char>> {
    if on {
        seq![name]
    } else {
        Seq::empty()
    }
}

impl Default for Capability {
    fn default() -> (c: Capability)
        ensures
            c == (Capability { get: false, set: false, delete: false, scan: false }),
    {
        Capability { get: false, set: false, delete: false, scan: false }
    }
}

impl Capability {
    /// The names of the operations that are on, in the order get, set,
    /// delete, scan.
    pub open spec fn names(self) -> Seq<Seq<char>> {
        name_if(self.get, "Get"@) + name_if(self.set, "Set"@) + name_if(self.delete, "Delete"@)
            + name_if(self.scan, "Scan"@)
    }

    /// The text form: the names joined by `" | "`, in braces.
    pub open spec fn text(self) -> Seq<char> {
        "{ "@ + join(self.names(), " | "@) + " }"@
    }

    /// The text form of the capabilities, such as `{ Get | Scan }`.
    pub fn describe(&self) -> (s: String)
        ensures
            s@ == self.text(),
    {
        let mut parts: Vec<&'static str> = Vec::new();
        let ghost mut names: Seq<Seq<char>> = Seq::empty();
        if self.get {
            parts.push("Get");
            proof {
                names = names.push("Get"@);
            }
        }
        if self.set {
            parts.push("Set");
            proof {
                names = names.push("Set"@);
            }
        }
        if self.delete {
            parts.push("Delete");
            proof {
                names = names.push("Delete"@);
            }
        }
        if self.scan {
            parts.push("Scan");
            proof {
                names = names.push("Scan"@);
            }
        }
        assert(names =~= self.names());
        let mut out = "{ ".to_owned();
        let mut i: usize = 0;
        while i < parts.len()
            invariant
                i <= parts@.len(),
                parts@.len() == names.len(),
                forall|k: int| 0 <= k < names.len() ==> (#[trigger] parts@[k])@ == names[k],
                out@ == "{ "@ + join(names.take(i as int), " | "@),
            decreases parts@.len() - i,
        {
            if i > 0 {
                out.append(" | ");
            }
            out.append(parts[i]);
            proof {
                let before = names.take(i as int);
                let after = names.take(i + 1);
                assert(after.drop_last() =~= before);
                assert(after.last() == names[i as int]);
                assert(out@ =~= "{ "@ + join(after, " | "@));
            }
            i += 1;
        }
        assert(names.take(i as int) =~= names);
        out.append(" }");
        out
    }
}

/// What an adapter says of itself.
pub struct Info {
    scheme: Scheme,
    name: String,
    capabilities: Capability,
}

/// The mathematical value of an [`Info`].
pub ghost struct InfoView {
    pub scheme: Scheme,
    pub name: Seq<char>,
    pub capabilities: Capability,
}

impl View for Info {
    type V = InfoView;

    closed spec fn view(&self) -> InfoView {
        InfoView { scheme: self.scheme, name: self.name@, capabilities: self.capabilities }
    }
}

impl Info {
    pub fn new(scheme: Scheme, name: &str, capabilities: Capability) -> (i: Info)
        ensures
            i@ == (InfoView { scheme, name: name@, capabilities }),
    {
        Info { scheme, name: name.to_owned(), capabilities }
    }

    pub fn scheme(&self) -> (s: Scheme)
        ensures
            s == self@.scheme,
    {
        self.scheme
    }

    pub fn name(&self) -> (n: &str)
        ensures
            n@ == self@.name,
    {
        self.name.as_str()
    }

    pub fn capabilities(&self) -> (c: Capability)
        ensures
            c == self@.capabilities,
    {
        self.capabilities
    }
}

} // verus!
