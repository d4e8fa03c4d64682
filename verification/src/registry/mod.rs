//! The remote registry: where packages live and how its answers are read.
//!
//! Nothing here talks to the network. The caller sends the requests that
//! [`Registry`] describes and hands back what the service answered; this
//! module decides what the answer means.

pub mod mirror;
pub mod tree;

use crate::error::InstallError;
use crate::registry::mirror::{begin, MirrorAction, TreeWalk};
use crate::types::Dependencies;
use vstd::prelude::*;

verus! {

/// Where the content-listing endpoint of the package index lives.
pub const GITHUB_API_URL: &'static str =
    "https://api.github.com/repos/mosaicgames/msc-index/contents";

/// Where the raw files of the package index live.
pub const GITHUB_RAW_URL: &'static str =
    "https://raw.githubusercontent.com/mosaicgames/msc-index/main";

/// The value of the `User-Agent` header that every listing and metadata
/// request carries.
pub const USER_AGENT: &'static str = "msc-package-manager";

/// The file name of a manifest, locally and in the index.
pub const MANIFEST_FILE: &'static str = "msc.toml";

/// Whether an HTTP status code reports success: the codes from 200 to 299.
pub open spec fn status_is_success(status: u16) -> bool {
    200 <= status < 300
}

/// What the status of a listing or metadata response means: success, a
/// missing resource (404), or any other failure with its code.
pub open spec fn listing_outcome(status: u16) -> Result<(), InstallError> {
    if status_is_success(status) {
        Ok(())
    } else if status == 404 {
        Err(InstallError::NotFound)
    } else {
        Err(InstallError::RemoteError { status })
    }
}

/// What the status of a file fetch means: success, or a failure with its code.
pub open spec fn fetch_outcome(status: u16) -> Result<(), InstallError> {
    if status_is_success(status) {
        Ok(())
    } else {
        Err(InstallError::RemoteError { status })
    }
}

/// Tells whether the remote service answered a request with a success status.
pub fn is_success(status: u16) -> (ok: bool)
    ensures
        ok == status_is_success(status),
{
    200 <= status && status < 300
}

/// Judges the status of a listing or metadata response.
pub fn check_listing_status(status: u16) -> (outcome: Result<(), InstallError>)
    ensures
        outcome == listing_outcome(status),
{
    if is_success(status) {
        Ok(())
    } else if status == 404 {
        Err(InstallError::NotFound)
    } else {
        Err(InstallError::RemoteError { status })
    }
}

/// Judges the status of a file fetch.
pub fn check_fetch_status(status: u16) -> (outcome: Result<(), InstallError>)
    ensures
        outcome == fetch_outcome(status),
{
    if is_success(status) {
        Ok(())
    } else {
        Err(InstallError::RemoteError { status })
    }
}

/// What a remote entry is.
#[derive(Clone, Copy, Debug, PartialEq, Eq, Structural)]
pub enum EntryKind {
    File,
    Directory,
}

/// One row of a listing as the service sends it, with the entry's type
/// still as text.
#[derive(Clone, Debug, PartialEq, Eq)]
pub struct ListingRow {
    pub name: String,
    pub content_type: String,
    pub download_url: Option<String>,
    pub path: String,
    pub size: Option<u64>,
}

/// The mathematical value of a [`ListingRow`].
pub struct ListingRowView {
    pub name: Seq<char>,
    pub content_type: Seq<char>,
    pub download_url: Option<Seq<char>>,
    pub path: Seq<char>,
    pub size: Option<u64>,
}

/// The text of an optional string.
pub open spec fn text_of(text: Option<String>) -> Option<Seq<char>> {
    match text {
        Some(t) => Some(t@),
        None => None,
    }
}

impl View for ListingRow {
    type V = ListingRowView;

    open spec fn view(&self) -> ListingRowView {
        ListingRowView {
            name: self.name@,
            content_type: self.content_type@,
            download_url: text_of(self.download_url),
            path: self.path@,
            size: self.size,
        }
    }
}

/// One child of a remote directory.
#[derive(Clone, Debug, PartialEq, Eq)]
pub struct RemoteEntry {
    pub name: String,
    pub kind: EntryKind,
    pub remote_path: String,
    pub download_url: Option<String>,
    pub size: Option<u64>,
}

/// The mathematical value of a [`RemoteEntry`].
pub struct RemoteEntryView {
    pub name: Seq<char>,
    pub kind: EntryKind,
    pub remote_path: Seq<char>,
    pub download_url: Option<Seq<char>>,
    pub size: Option<u64>,
}

impl View for RemoteEntry {
    type V = RemoteEntryView;

    open spec fn view(&self) -> RemoteEntryView {
        RemoteEntryView {
            name: self.name@,
            kind: self.kind,
            remote_path: self.remote_path@,
            download_url: text_of(self.download_url),
            size: self.size,
        }
    }
}

/// The kind that a type text names: `dir` a directory, `file` a file, and
/// any other text nothing that can be mirrored.
pub open spec fn kind_of(content_type: Seq<char>) -> Option<EntryKind> {
    if content_type == seq!['d', 'i', 'r'] {
        Some(EntryKind::Directory)
    } else if content_type == seq!['f', 'i', 'l', 'e'] {
        Some(EntryKind::File)
    } else {
        None
    }
}

/// The entry that a row describes, if its type is one that can be mirrored.
pub open spec fn entry_of(row: ListingRowView) -> Option<RemoteEntryView> {
    match kind_of(row.content_type) {
        Some(kind) => Some(
            RemoteEntryView {
                name: row.name,
                kind,
                remote_path: row.path,
                download_url: row.download_url,
                size: row.size,
            },
        ),
        None => None,
    }
}

/// The entries that the rows describe, in the order of the rows; rows of
/// another type are left out.
pub open spec fn entries_of(rows: Seq<ListingRow>) -> Seq<RemoteEntryView>
    decreases rows.len(),
{
    if rows.len() == 0 {
        Seq::empty()
    } else {
        match entry_of(rows.last()@) {
            Some(entry) => entries_of(rows.drop_last()).push(entry),
            None => entries_of(rows.drop_last()),
        }
    }
}

/// The values of a list of entries.
pub open spec fn views_of(entries: Seq<RemoteEntry>) -> Seq<RemoteEntryView> {
    Seq::new(entries.len(), |i: int| entries[i]@)
}

impl EntryKind {
    /// Reads the type text of a listing row.
    pub fn from_type_name(content_type: &str) -> (kind: Option<EntryKind>)
        ensures
            kind == kind_of(content_type@),
    {
        let len = content_type.unicode_len();
        if len == 3 && content_type.get_char(0) == 'd' && content_type.get_char(1) == 'i'
            && content_type.get_char(2) == 'r' {
            assert(content_type@ =~= seq!['d', 'i', 'r']);
            Some(EntryKind::Directory)
        } else if len == 4 && content_type.get_char(0) == 'f' && content_type.get_char(1) == 'i'
            && content_type.get_char(2) == 'l' && content_type.get_char(3) == 'e' {
            assert(content_type@ =~= seq!['f', 'i', 'l', 'e']);
            Some(EntryKind::File)
        } else {
            proof {
                let dir = seq!['d', 'i', 'r'];
                let file = seq!['f', 'i', 'l', 'e'];
                if content_type@ == dir {
                    assert(dir.len() == 3 && dir[0] == 'd' && dir[1] == 'i' && dir[2] == 'r');
                }
                if content_type@ == file {
                    assert(file.len() == 4 && file[0] == 'f' && file[1] == 'i' && file[2] == 'l'
                        && file[3] == 'e');
                }
            }
            None
        }
    }
}

impl RemoteEntry {
    /// The entry that a listing row describes; none for a row whose type is
    /// neither `dir` nor `file`.
    pub fn from_row(row: &ListingRow) -> (entry: Option<RemoteEntry>)
        ensures
            match entry {
                Some(e) => entry_of(row@) == Some(e@),
                None => entry_of(row@) is None,
            },
    {
        match EntryKind::from_type_name(row.content_type.as_str()) {
            Some(kind) => Some(
                RemoteEntry {
                    name: row.name.clone(),
                    kind,
                    remote_path: row.path.clone(),
                    download_url: match &row.download_url {
                        Some(url) => Some(url.clone()),
                        None => None,
                    },
                    size: row.size,
                },
            ),
            None => None,
        }
    }
}

/// A package as the index describes it.
#[derive(Clone, Debug)]
pub struct Package {
    pub name: String,
    pub version: String,
    pub description: String,
    pub author: String,
    pub dependencies: Option<Dependencies>,
}

/// The mathematical value of a [`Package`].
pub struct PackageView {
    pub name: Seq<char>,
    pub version: Seq<char>,
    pub description: Seq<char>,
    pub author: Seq<char>,
    pub dependencies: Option<Map<Seq<char>, Seq<char>>>,
}

impl View for Package {
    type V = PackageView;

    open spec fn view(&self) -> PackageView {
        PackageView {
            name: self.name@,
            version: self.version@,
            description: self.description@,
            author: self.author@,
            dependencies: match self.dependencies {
                Some(deps) => Some(deps@),
                None => None,
            },
        }
    }
}

/// The address of the listing of `path` below `author`:
/// `<base>/<author>/<path>`.
pub open spec fn listing_address(base: Seq<char>, author: Seq<char>, path: Seq<char>) -> Seq<
    char,
> {
    base + seq!['/'] + author + seq!['/'] + path
}

/// The address of a package's manifest in the index:
/// `<base>/<author>/<name>/msc.toml`.
pub open spec fn manifest_address(base: Seq<char>, author: Seq<char>, name: Seq<char>) -> Seq<
    char,
> {
    base + seq!['/'] + author + seq!['/'] + name + seq!['/'] + MANIFEST_FILE@
}

/// What a listing response means. The status is judged first; a body that
/// could not be decoded (`rows` is `None`) is a protocol error; otherwise the
/// rows give the entries.
pub open spec fn listing_result(status: u16, rows: Option<Vec<ListingRow>>) -> Result<
    Seq<RemoteEntryView>,
    InstallError,
> {
    match listing_outcome(status) {
        Err(error) => Err(error),
        Ok(_) => match rows {
            None => Err(InstallError::ProtocolError),
            Some(rows) => Ok(entries_of(rows@)),
        },
    }
}

/// The registry: the two addresses below which the package index is served.
#[derive(Debug)]
pub struct Registry {
    api_base: String,
    raw_base: String,
}

impl Registry {
    /// The address below which listings are served.
    pub closed spec fn api_base(&self) -> Seq<char> {
        self.api_base@
    }

    /// The address below which raw files are served.
    pub closed spec fn raw_base(&self) -> Seq<char> {
        self.raw_base@
    }

    /// The public package index.
    pub fn new() -> (registry: Registry)
        ensures
            registry.api_base() == GITHUB_API_URL@,
            registry.raw_base() == GITHUB_RAW_URL@,
    {
        Registry { api_base: GITHUB_API_URL.to_owned(), raw_base: GITHUB_RAW_URL.to_owned() }
    }

    /// A registry served below other addresses.
    pub fn at(api_base: &str, raw_base: &str) -> (registry: Registry)
        ensures
            registry.api_base() == api_base@,
            registry.raw_base() == raw_base@,
    {
        Registry { api_base: api_base.to_owned(), raw_base: raw_base.to_owned() }
    }

    /// The address to ask for the listing of `path` below `author`.
    pub fn listing_url(&self, author: &str, path: &str) -> (url: String)
        ensures
            url@ == listing_address(self.api_base(), author@, path@),
    {
        proof {
            reveal_strlit("/");
            assert("/"@ =~= seq!['/']);
        }
        let mut url = self.api_base.clone();
        url.append("/");
        url.append(author);
        url.append("/");
        url.append(path);
        url
    }

    /// The address of the manifest of the package `author/name`.
    pub fn package_url(&self, author: &str, name: &str) -> (url: String)
        ensures
            url@ == manifest_address(self.raw_base(), author@, name@),
    {
        proof {
            reveal_strlit("/");
            assert("/"@ =~= seq!['/']);
        }
        let mut url = self.raw_base.clone();
        url.append("/");
        url.append(author);
        url.append("/");
        url.append(name);
        url.append("/");
        url.append(MANIFEST_FILE);
        url
    }

    /// Starts the walk that mirrors the package `package_name` of `username`
    /// into the local directory `dest`, and says what to do first. The walk
    /// returns the bytes it wrote when it finishes.
    pub fn download_package(&self, username: &str, package_name: &str, dest: &str) -> (started: (
        TreeWalk,
        MirrorAction,
    ))
        ensures
            (started.0@, started.1@) == begin(username@, package_name@, dest@),
    {
        TreeWalk::start(username, package_name, dest)
    }

    /// Reads a listing response: its status and, where the body could be
    /// decoded, its rows.
    pub fn read_listing(status: u16, rows: Option<Vec<ListingRow>>) -> (result: Result<
        Vec<RemoteEntry>,
        InstallError,
    >)
        ensures
            match result {
                Ok(entries) => listing_result(status, rows) == Ok::<
                    Seq<RemoteEntryView>,
                    InstallError,
                >(views_of(entries@)),
                Err(error) => listing_result(status, rows) == Err::<
                    Seq<RemoteEntryView>,
                    InstallError,
                >(error),
            },
    {
        match check_listing_status(status) {
            Err(error) => Err(error),
            Ok(_) => match rows {
                None => Err(InstallError::ProtocolError),
                Some(rows) => Ok(decode_rows(&rows)),
            },
        }
    }

    /// Reads a metadata response: its status and, where the body could be
    /// decoded, the package it describes. The status is judged first; a body
    /// that could not be decoded is a protocol error.
    pub fn read_package(status: u16, parsed: Option<Package>) -> (result: Result<
        Package,
        InstallError,
    >)
        ensures
            match listing_outcome(status) {
                Err(error) => result == Err::<Package, InstallError>(error),
                Ok(_) => match parsed {
                    None => result == Err::<Package, InstallError>(InstallError::ProtocolError),
                    Some(package) => result == Ok::<Package, InstallError>(package),
                },
            },
    {
        match check_listing_status(status) {
            Err(error) => Err(error),
            Ok(_) => match parsed {
                None => Err(InstallError::ProtocolError),
                Some(package) => Ok(package),
            },
        }
    }
}

/// Turns the rows of a listing into entries, in order, leaving out the rows
/// whose type is neither `dir` nor `file`.
pub fn decode_rows(rows: &Vec<ListingRow>) -> (entries: Vec<RemoteEntry>)
    ensures
        views_of(entries@) == entries_of(rows@),
{
    let mut entries: Vec<RemoteEntry> = Vec::new();
    let mut i: usize = 0;
    while i < rows.len()
        invariant
            i <= rows.len(),
            views_of(entries@) == entries_of(rows@.take(i as int)),
        decreases rows.len() - i,
    {
        let ghost before = views_of(entries@);
        proof {
            let next = rows@.take(i + 1);
            assert(next.drop_last() =~= rows@.take(i as int));
            assert(next.last() == rows@[i as int]);
        }
        match RemoteEntry::from_row(&rows[i]) {
            Some(entry) => {
                let ghost e = entry@;
                entries.push(entry);
                assert(views_of(entries@) =~= before.push(e));
            },
            None => {},
        }
        i += 1;
    }
    proof {
        assert(rows@.take(i as int) =~= rows@);
    }
    entries
}

} // verus!
