use blockpipe::error::{Error, ErrorKind};
use blockpipe::metadata::{EntryMode, Metadata, Timestamp};
use blockpipe::typed_kv::{unsupported, Adapter, Capability, Info, Scheme, Value};

#[test]
fn capability_text() {
    let none = Capability::default();
    assert!(!none.get && !none.set && !none.delete && !none.scan);
    assert_eq!(none.describe(), "{  }");
    let all = Capability { get: true, set: true, delete: true, scan: true };
    assert_eq!(all.describe(), "{ Get | Set | Delete | Scan }");
    let one = Capability { scan: true, ..Capability::default() };
    assert_eq!(one.describe(), "{ Scan }");
    let two = Capability { get: true, delete: true, ..Capability::default() };
    assert_eq!(two.describe(), "{ Get | Delete }");
    let three = Capability { set: true, delete: true, scan: true, get: false };
    assert_eq!(three.describe(), "{ Set | Delete | Scan }");
}

#[test]
fn info_keeps_what_it_was_given() {
    let caps = Capability { get: true, set: true, delete: false, scan: false };
    let info = Info::new(Scheme::Moka, "cache", caps);
    assert_eq!(info.scheme(), Scheme::Moka);
    assert_eq!(info.name(), "cache");
    assert!(info.capabilities() == caps);
    let unnamed = Info::new(Scheme::Custom, "", Capability::default());
    assert_eq!(unnamed.name(), "");
    assert_eq!(unnamed.scheme(), Scheme::Custom);
}

#[test]
fn value_size_counts_metadata_and_content() {
    let v = Value { metadata: Metadata::new(EntryMode::FILE), value: vec![0u8; 10] };
    assert_eq!(v.size(), std::mem::size_of::<Metadata>() + 10);
    let empty = Value { metadata: Metadata::new(EntryMode::FILE), value: Vec::new() };
    assert_eq!(empty.size(), std::mem::size_of::<Metadata>());
}

#[test]
fn new_dir_is_an_empty_directory() {
    let at = Timestamp { secs: 1_700_000_000, nanos: 5 };
    let v = Value::new_dir_at(at);
    assert_eq!(v.metadata.mode, EntryMode::DIR);
    assert_eq!(v.metadata.content_length, Some(0));
    assert_eq!(v.metadata.last_modified, Some(at));
    assert!(v.value.is_empty());

    let now = Value::new_dir();
    assert_eq!(now.metadata.mode, EntryMode::DIR);
    assert_eq!(now.metadata.content_length, Some(0));
    assert!(now.value.is_empty());
    let stamp = now.metadata.last_modified.expect("a directory has a time");
    // Later than 2020-01-01.
    assert!(stamp.secs > 1_577_836_800);
}

#[test]
fn metadata_builders() {
    let m = Metadata::new(EntryMode::Unknown);
    assert_eq!(m.mode, EntryMode::Unknown);
    assert_eq!(m.content_length, None);
    assert_eq!(m.last_modified, None);
    let m = m.with_content_length(12);
    assert_eq!(m.content_length, Some(12));
    assert_eq!(m.last_modified, None);
    let at = Timestamp { secs: -1, nanos: 999_999_999 };
    let m = m.with_last_modified(at);
    assert_eq!(m.content_length, Some(12));
    assert_eq!(m.last_modified, Some(at));
    assert_eq!(m.mode, EntryMode::Unknown);
}

#[test]
fn error_carries_kind_message_and_operation() {
    let e = Error::new(ErrorKind::Unexpected, "boom");
    assert_eq!(e.kind(), ErrorKind::Unexpected);
    assert_eq!(e.message(), "boom");
    assert_eq!(e.operation(), "");
    let e = e.with_operation("write");
    assert_eq!(e.kind(), ErrorKind::Unexpected);
    assert_eq!(e.message(), "boom");
    assert_eq!(e.operation(), "write");
}

#[test]
fn unsupported_error() {
    let e = unsupported("typed_kv::Adapter::scan");
    assert_eq!(e.kind(), ErrorKind::Unsupported);
    assert_eq!(e.message(), "typed_kv adapter doesn't support this operation");
    assert_eq!(e.operation(), "typed_kv::Adapter::scan");
}

struct Nothing;

impl Adapter for Nothing {
    fn info(&self) -> Info {
        Info::new(Scheme::Memory, "nothing", Capability { get: true, ..Capability::default() })
    }

    fn blocking_get(&self, _: &str) -> Result<Option<Value>, Error> {
        Ok(None)
    }

    fn blocking_set(&self, _: &str, _: Value) -> Result<(), Error> {
        Ok(())
    }

    fn blocking_delete(&self, _: &str) -> Result<(), Error> {
        Ok(())
    }
}

#[test]
fn scan_is_declined_by_default() {
    let a = Nothing;
    assert_eq!(a.info().name(), "nothing");
    assert!(a.blocking_get("k").unwrap().is_none());
    let e = a.blocking_scan("prefix/").unwrap_err();
    assert_eq!(e.kind(), ErrorKind::Unsupported);
    assert_eq!(e.message(), "typed_kv adapter doesn't support this operation");
    assert_eq!(e.operation(), "typed_kv::Adapter::blocking_scan");
}

struct Lister(Vec<String>);

impl Adapter for Lister {
    fn info(&self) -> Info {
        Info::new(Scheme::Memory, "lister", Capability { scan: true, ..Capability::default() })
    }

    fn blocking_get(&self, _: &str) -> Result<Option<Value>, Error> {
        Ok(None)
    }

    fn blocking_set(&self, _: &str, _: Value) -> Result<(), Error> {
        Ok(())
    }

    fn blocking_delete(&self, _: &str) -> Result<(), Error> {
        Ok(())
    }

    fn blocking_scan(&self, path: &str) -> Result<Vec<String>, Error> {
        let mut keys = Vec::new();
        for k in &self.0 {
            if k.starts_with(path) {
                keys.push(k.clone());
            }
        }
        Ok(keys)
    }
}

#[test]
fn scan_of_a_listing_adapter_yields_keys_under_the_prefix() {
    let a = Lister(vec!["a/1".to_string(), "b/1".to_string(), "a/2".to_string()]);
    assert!(a.info().capabilities().scan);
    assert_eq!(a.blocking_scan("a/").unwrap(), vec!["a/1".to_string(), "a/2".to_string()]);
    assert!(a.blocking_scan("c/").unwrap().is_empty());
}
