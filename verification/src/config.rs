use vstd::prelude::*;

verus! {

/// The options a repository opener accumulates before its terminal open
/// call. Chained setters record plain values; applying them to the engine
/// happens only at open time, outside this layer.
#[derive(Clone, Copy, PartialEq, Eq, Structural, Debug)]
pub struct RepoOpenerConfig {
    pub create: bool,
    pub create_new: bool,
    pub compress: bool,
    pub version_limit: u8,
    pub dedup_chunk: bool,
    pub read_only: bool,
    pub force: bool,
}

impl RepoOpenerConfig {
    /// A blank set of options: nothing requested, one retained version,
    /// matching the engine's own defaults.
    pub fn new() -> (c: RepoOpenerConfig)
        ensures
            c == (RepoOpenerConfig {
                create: false,
                create_new: false,
                compress: false,
                version_limit: 1,
                dedup_chunk: false,
                read_only: false,
                force: false,
            }),
    {
        RepoOpenerConfig {
            create: false,
            create_new: false,
            compress: false,
            version_limit: 1,
            dedup_chunk: false,
            read_only: false,
            force: false,
        }
    }

    /// Request that the repository be created if it does not exist.
    pub fn create(&mut self, create: bool)
        ensures
            *final(self) == (RepoOpenerConfig { create, ..*old(self) }),
    {
        self.create = create;
    }

    /// Request that the repository be created, failing if it already exists.
    pub fn create_new(&mut self, create_new: bool)
        ensures
            *final(self) == (RepoOpenerConfig { create_new, ..*old(self) }),
    {
        self.create_new = create_new;
    }

    /// Request transparent compression of stored content.
    pub fn compress(&mut self, compress: bool)
        ensures
            *final(self) == (RepoOpenerConfig { compress, ..*old(self) }),
    {
        self.compress = compress;
    }

    /// Set how many versions of a file the repository retains.
    pub fn version_limit(&mut self, version_limit: u8)
        ensures
            *final(self) == (RepoOpenerConfig { version_limit, ..*old(self) }),
    {
        self.version_limit = version_limit;
    }

    /// Request chunk-level deduplication of stored content.
    pub fn dedup_chunk(&mut self, dedup_chunk: bool)
        ensures
            *final(self) == (RepoOpenerConfig { dedup_chunk, ..*old(self) }),
    {
        self.dedup_chunk = dedup_chunk;
    }

    /// Request read-only access.
    pub fn read_only(&mut self, read_only: bool)
        ensures
            *final(self) == (RepoOpenerConfig { read_only, ..*old(self) }),
    {
        self.read_only = read_only;
    }

    /// Request that a stale lock left by a crashed opener be overridden.
    pub fn force(&mut self, force: bool)
        ensures
            *final(self) == (RepoOpenerConfig { force, ..*old(self) }),
    {
        self.force = force;
    }
}

/// The options a file open accumulates before its terminal open call
/// against a repository. A limit of `None` defers to the repository-wide
/// setting.
#[derive(Clone, Copy, PartialEq, Eq, Structural, Debug)]
pub struct OpenOptionsConfig {
    pub read: bool,
    pub write: bool,
    pub append: bool,
    pub truncate: bool,
    pub create: bool,
    pub create_new: bool,
    pub version_limit: Option<u8>,
    pub dedup_chunk: Option<bool>,
}

impl OpenOptionsConfig {
    /// A blank set of options: everything off except read access, matching
    /// the engine's own defaults.
    pub fn new() -> (c: OpenOptionsConfig)
        ensures
            c == (OpenOptionsConfig {
                read: true,
                write: false,
                append: false,
                truncate: false,
                create: false,
                create_new: false,
                version_limit: None,
                dedup_chunk: None,
            }),
    {
        OpenOptionsConfig {
            read: true,
            write: false,
            append: false,
            truncate: false,
            create: false,
            create_new: false,
            version_limit: None,
            dedup_chunk: None,
        }
    }

    /// Set the option for read access.
    pub fn read(&mut self, read: bool)
        ensures
            *final(self) == (OpenOptionsConfig { read, ..*old(self) }),
    {
        self.read = read;
    }

    /// Set the option for write access.
    pub fn write(&mut self, write: bool)
        ensures
            *final(self) == (OpenOptionsConfig { write, ..*old(self) }),
    {
        self.write = write;
    }

    /// Set the option for append mode: writes go to the end of the file.
    pub fn append(&mut self, append: bool)
        ensures
            *final(self) == (OpenOptionsConfig { append, ..*old(self) }),
    {
        self.append = append;
    }

    /// Set the option for truncating the file on open.
    pub fn truncate(&mut self, truncate: bool)
        ensures
            *final(self) == (OpenOptionsConfig { truncate, ..*old(self) }),
    {
        self.truncate = truncate;
    }

    /// Set the option for creating the file if it does not exist.
    pub fn create(&mut self, create: bool)
        ensures
            *final(self) == (OpenOptionsConfig { create, ..*old(self) }),
    {
        self.create = create;
    }

    /// Set the option for creating the file, failing if it already exists.
    pub fn create_new(&mut self, create_new: bool)
        ensures
            *final(self) == (OpenOptionsConfig { create_new, ..*old(self) }),
    {
        self.create_new = create_new;
    }

    /// Override the repository-wide version limit for this file.
    pub fn version_limit(&mut self, version_limit: u8)
        ensures
            *final(self) == (OpenOptionsConfig {
                version_limit: Some(version_limit),
                ..*old(self)
            }),
    {
        self.version_limit = Some(version_limit);
    }

    /// Override the repository-wide deduplication switch for this file.
    pub fn dedup_chunk(&mut self, dedup_chunk: bool)
        ensures
            *final(self) == (OpenOptionsConfig { dedup_chunk: Some(dedup_chunk), ..*old(self) }),
    {
        self.dedup_chunk = Some(dedup_chunk);
    }
}

} // verus!
